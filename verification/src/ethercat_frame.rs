//! Building an EtherCAT frame: an Ethernet header, an EtherCAT header and a
//! chain of datagrams, each with a header, a payload and a working counter.
use crate::bytes::{
    clear_range, copy_into, fits_buffer, le16, put_bytes, put_le16, read_le16, write_le16, zero_range,
};
use crate::command::{get_ap_adp, get_ap_adp_spec};
use crate::frame::{
    command_type_code, ec_length, ec_length_at, eth_default, pdu_ado, pdu_adp, pdu_command_type,
    pdu_has_next, pdu_index, pdu_irq, pdu_is_circulated, pdu_length, pdu_length_at, pdu_size,
    put_ec_length, put_ec_type, put_pdu_has_next, put_pdu_is_circulated, put_pdu_length,
    set_ec_length_at, set_ec_type_at, set_ethercat_default_at, set_pdu_ado_at, set_pdu_adp_at,
    set_pdu_command_type_at, set_pdu_has_next_at, set_pdu_index_at, set_pdu_irq_at,
    set_pdu_is_circulated_at, set_pdu_length_at, CommandType, ETHERCAT_HEADER_SIZE,
    ETHERNET_HEADER_SIZE, MAX_ETHERCAT_DATAGRAM, MAX_PDU_DATAGRAM, PDU_HEADER_SIZE, WKC_LENGTH,
};
use vstd::prelude::*;
use vstd::slice::slice_subrange;

verus! {

/// Offset of the first datagram: after the Ethernet and EtherCAT headers.
pub const FIRST_PDU_OFFSET: usize = 16;

/// Why a datagram could not be added to a frame.
#[derive(Debug, Clone, Copy, PartialEq, Eq, Structural)]
pub enum Error {
    /// The buffer has no room for the datagram or the headers.
    SmallBuffer,
    /// The datagram, or the frame with it, exceeds an Ethernet frame.
    LargeData,
}

// ---------------------------------------------------------------------------
// The chain of datagrams
// ---------------------------------------------------------------------------
/// Offsets of the datagrams that a walk from `off` finds before `end`: a
/// datagram is found where its header lies inside the buffer.
pub open spec fn pdu_chain(s: Seq<u8>, off: int, end: int) -> Seq<int>
    decreases if off < end { end - off } else { 0 },
{
    if 0 <= off && off + PDU_HEADER_SIZE <= s.len() && off < end {
        proof {
            lemma_pdu_size_positive(s, off);
        }
        seq![off] + pdu_chain(s, off + pdu_size(s, off), end)
    } else {
        Seq::empty()
    }
}

/// The walk from `off` ends exactly at `end`.
pub open spec fn chain_reaches(s: Seq<u8>, off: int, end: int) -> bool
    decreases if off < end { end - off } else { 0 },
{
    if off == end {
        true
    } else if 0 <= off && off + PDU_HEADER_SIZE <= s.len() && off < end {
        proof {
            lemma_pdu_size_positive(s, off);
        }
        chain_reaches(s, off + pdu_size(s, off), end)
    } else {
        false
    }
}

/// A datagram takes at least its header and working counter.
pub proof fn lemma_pdu_size_positive(s: Seq<u8>, o: int)
    ensures
        pdu_size(s, o) >= PDU_HEADER_SIZE + WKC_LENGTH,
        pdu_length(s, o) < 2048,
{
    let a = s[o + 6];
    let b = s[o + 7];
    assert(0 <= a && 0 <= b % 8 < 8);
}

/// A frame whose datagrams exactly fill `16..free_offset` and whose
/// EtherCAT header records their total size.
pub open spec fn frame_wf(s: Seq<u8>, free_offset: int) -> bool {
    &&& FIRST_PDU_OFFSET <= free_offset <= s.len()
    &&& chain_reaches(s, FIRST_PDU_OFFSET as int, free_offset)
    &&& ec_length(s, ETHERNET_HEADER_SIZE as int) == free_offset - FIRST_PDU_OFFSET
}

/// The header of a new datagram written at `o`, in the order the fields are
/// set: command, adp, ado, index, not circulated, no next, irq 0, length.
pub open spec fn put_pdu_header(
    s: Seq<u8>,
    o: int,
    cmd: int,
    adp: int,
    ado: int,
    index: int,
    len: int,
) -> Seq<u8> {
    let s1 = s.update(o, cmd as u8);
    let s2 = put_le16(s1, o + 2, adp);
    let s3 = put_le16(s2, o + 4, ado);
    let s4 = s3.update(o + 1, index as u8);
    let s5 = put_pdu_is_circulated(s4, o, false);
    let s6 = put_pdu_has_next(s5, o, false);
    let s7 = put_le16(s6, o + 8, 0);
    put_pdu_length(s7, o, len)
}

/// Outcome of adding a datagram to the frame `(s, fo)` of `EtherCATFrame`:
/// the result, the new buffer and the new free offset.
pub open spec fn add_command_spec(
    s: Seq<u8>,
    fo: int,
    index: u8,
    cmd: int,
    adp: int,
    ado: int,
    data: Seq<u8>,
) -> (Result<(), Error>, Seq<u8>, int) {
    let n = data.len() as int;
    let dlpdu_len = n + PDU_HEADER_SIZE + WKC_LENGTH;
    if n > MAX_PDU_DATAGRAM {
        (Err(Error::LargeData), s, fo)
    } else if dlpdu_len > s.len() - fo {
        (Err(Error::SmallBuffer), s, fo)
    } else {
        let chain = pdu_chain(s, FIRST_PDU_OFFSET as int, fo);
        let s1 = if chain.len() > 0 {
            put_pdu_has_next(s, chain.last(), true)
        } else {
            s
        };
        let s2 = put_pdu_header(s1, fo, cmd, adp, ado, index as int, n);
        let s3 = put_bytes(s2, fo + PDU_HEADER_SIZE, data);
        let s4 = s3.update(fo + PDU_HEADER_SIZE + n, 0u8).update(fo + PDU_HEADER_SIZE + n + 1, 0u8);
        let total = ec_length(s4, ETHERNET_HEADER_SIZE as int) + dlpdu_len;
        if total > MAX_ETHERCAT_DATAGRAM {
            (Err(Error::LargeData), s4, fo)
        } else {
            (Ok(()), put_ec_length(s4, ETHERNET_HEADER_SIZE as int, total), fo + dlpdu_len)
        }
    }
}

/// Outcome of adding one auto-increment datagram for each slave position in
/// `i..n`, stopping at the first failure.
pub open spec fn add_all_slaves_spec(
    s: Seq<u8>,
    fo: int,
    index: u8,
    cmd: int,
    ado: int,
    data: Seq<u8>,
    i: int,
    n: int,
) -> (Result<(), Error>, Seq<u8>, int)
    decreases n - i,
{
    if i >= n {
        (Ok(()), s, fo)
    } else {
        let (r, s1, fo1) = add_command_spec(s, fo, index, cmd, get_ap_adp_spec(i as u16) as int, ado, data);
        if r is Err {
            (r, s1, fo1)
        } else {
            add_all_slaves_spec(s1, fo1, index, cmd, ado, data, i + 1, n)
        }
    }
}

/// The buffer that `init` leaves: zeros, then the default Ethernet header and
/// an empty EtherCAT header of type 1.
pub open spec fn init_spec(len: nat) -> Seq<u8> {
    let z = Seq::new(len, |i: int| 0u8);
    put_ec_type(put_ec_length(eth_default(z), ETHERNET_HEADER_SIZE as int, 0), ETHERNET_HEADER_SIZE as int, 1)
}

/// The address split into the `adp` (low half) and `ado` (high half) fields.
pub open spec fn divide_address_spec(adr: u32) -> (u16, u16) {
    ((adr % 65536) as u16, (adr / 65536) as u16)
}

pub fn divide_address(adr: u32) -> (r: (u16, u16))
    ensures
        r == divide_address_spec(adr),
{
    assert(adr & 0x0000_ffff == adr % 65536) by (bit_vector);
    assert(adr >> 16u32 == adr / 65536) by (bit_vector);
    assert(adr / 65536 < 65536) by (bit_vector);
    ((adr & 0x0000_ffff) as u16, (adr >> 16u32) as u16)
}

// ---------------------------------------------------------------------------
// Walking the datagrams
// ---------------------------------------------------------------------------
/// Yields the offsets of the datagrams of a frame (plus `delta`), in order.
pub struct EtherCATPDUOffsets<'a> {
    buffer: &'a [u8],
    offset: usize,
    length: usize,
    delta: usize,
}

impl<'a> EtherCATPDUOffsets<'a> {
    pub closed spec fn buffer_view(&self) -> Seq<u8> {
        self.buffer@
    }

    pub closed spec fn offset_view(&self) -> int {
        self.offset as int
    }

    pub closed spec fn length_view(&self) -> int {
        self.length as int
    }

    pub closed spec fn delta_view(&self) -> int {
        self.delta as int
    }

    /// Offsets that are still to come, before adding `delta`.
    pub closed spec fn remaining(&self) -> Seq<int> {
        pdu_chain(self.buffer@, self.offset as int, self.length as int)
    }

    pub closed spec fn wf(&self) -> bool {
        fits_buffer(self.buffer@.len() as int) && self.delta <= PDU_HEADER_SIZE
    }

    pub fn new(buffer: &'a [u8], length: usize, delta: usize) -> (r: Self)
        requires
            fits_buffer(buffer@.len() as int),
            delta <= PDU_HEADER_SIZE,
        ensures
            r.wf(),
            r.buffer_view() == buffer@,
            r.offset_view() == FIRST_PDU_OFFSET,
            r.length_view() == length,
            r.delta_view() == delta,
            r.remaining() == pdu_chain(buffer@, FIRST_PDU_OFFSET as int, length as int),
    {
        EtherCATPDUOffsets { buffer, length, offset: FIRST_PDU_OFFSET, delta }
    }

    pub fn next(&mut self) -> (r: Option<usize>)
        requires
            old(self).wf(),
        ensures
            final(self).wf(),
            final(self).buffer_view() == old(self).buffer_view(),
            final(self).length_view() == old(self).length_view(),
            final(self).delta_view() == old(self).delta_view(),
            old(self).remaining().len() == 0 ==> r is None && final(self).remaining().len() == 0,
            old(self).remaining().len() > 0 ==> r == Some((old(self).remaining()[0] + old(self).delta_view()) as usize)
                && final(self).remaining() == old(self).remaining().drop_first(),
    {
        if self.offset >= self.buffer.len() {
            return None;
        }
        if self.buffer.len() - self.offset < PDU_HEADER_SIZE {
            return None;
        }
        let len = pdu_length_at(self.buffer, self.offset) as usize;
        if self.offset < self.length {
            let b = self.offset;
            self.offset = self.offset + PDU_HEADER_SIZE + len + WKC_LENGTH;
            proof {
                assert(old(self).remaining() =~= seq![b as int] + self.remaining());
            }
            Some(b + self.delta)
        } else {
            None
        }
    }
}

/// Offset of the last datagram of the chain from `FIRST_PDU_OFFSET` to `end`.
fn last_pdu_offset(buffer: &[u8], end: usize) -> (r: Option<usize>)
    requires
        fits_buffer(buffer@.len() as int),
    ensures
        pdu_chain(buffer@, FIRST_PDU_OFFSET as int, end as int).len() == 0 ==> r is None,
        pdu_chain(buffer@, FIRST_PDU_OFFSET as int, end as int).len() > 0 ==> r == Some(
            pdu_chain(buffer@, FIRST_PDU_OFFSET as int, end as int).last() as usize,
        ),
{
    let mut it = EtherCATPDUOffsets::new(buffer, end, 0);
    let ghost chain = pdu_chain(buffer@, FIRST_PDU_OFFSET as int, end as int);
    let ghost mut seen: Seq<int> = Seq::empty();
    let mut last: Option<usize> = None;
    loop
        invariant
            it.wf(),
            it.buffer_view() == buffer@,
            it.length_view() == end,
            it.delta_view() == 0,
            chain == seen + it.remaining(),
            seen.len() == 0 ==> last is None,
            seen.len() > 0 ==> last == Some(seen.last() as usize),
        ensures
            chain == seen,
            seen.len() == 0 ==> last is None,
            seen.len() > 0 ==> last == Some(seen.last() as usize),
        decreases it.remaining().len(),
    {
        let ghost before = it.remaining();
        match it.next() {
            Some(o) => {
                proof {
                    seen = seen.push(before[0]);
                    assert(chain =~= seen + it.remaining());
                }
                last = Some(o);
            },
            None => {
                proof {
                    assert(chain =~= seen);
                }
                break ;
            },
        }
    }
    last
}

// ---------------------------------------------------------------------------
// The frame
// ---------------------------------------------------------------------------
/// A frame under construction over its buffer: datagrams are appended at
/// `free_offset`; `index` is written into each new datagram.
#[derive(Debug)]
pub struct EtherCATFrame {
    pub buffer: Vec<u8>,
    pub free_offset: usize,
    pub index: u8,
}

impl EtherCATFrame {
    /// Takes a received frame: the datagrams end where its EtherCAT header
    /// says.
    pub fn new(buffer: Vec<u8>) -> (r: Result<Self, Error>)
        ensures
            buffer@.len() < FIRST_PDU_OFFSET <==> r is Err,
            r matches Err(e) ==> e == Error::SmallBuffer,
            r matches Ok(f) ==> f.buffer@ == buffer@ && f.index == 0 && f.free_offset
                == FIRST_PDU_OFFSET + ec_length(buffer@, ETHERNET_HEADER_SIZE as int),
    {
        if buffer.len() < FIRST_PDU_OFFSET {
            return Err(Error::SmallBuffer);
        }
        let length = ec_length_at(buffer.as_slice(), ETHERNET_HEADER_SIZE);
        Ok(EtherCATFrame { buffer, free_offset: FIRST_PDU_OFFSET + length as usize, index: 0 })
    }

    /// As `new`, for a buffer known to hold both headers.
    pub fn new_unchecked(buffer: Vec<u8>) -> (r: Self)
        requires
            FIRST_PDU_OFFSET <= buffer@.len(),
        ensures
            r.buffer@ == buffer@,
            r.index == 0,
            r.free_offset == FIRST_PDU_OFFSET + ec_length(buffer@, ETHERNET_HEADER_SIZE as int),
    {
        let length = ec_length_at(buffer.as_slice(), ETHERNET_HEADER_SIZE);
        EtherCATFrame { buffer, free_offset: FIRST_PDU_OFFSET + length as usize, index: 0 }
    }

    /// The bytes of the frame so far.
    pub fn packet(&self) -> (r: &[u8])
        requires
            self.free_offset <= self.buffer@.len(),
        ensures
            r@ == self.buffer@.subrange(0, self.free_offset as int),
    {
        slice_subrange(self.buffer.as_slice(), 0, self.free_offset)
    }

    /// Gives the buffer back.
    pub fn drop(self) -> (r: Vec<u8>)
        ensures
            r@ == self.buffer@,
    {
        self.buffer
    }

    /// Offsets of the datagram headers.
    pub fn dlpdu_header_offsets(&self) -> (r: EtherCATPDUOffsets)
        requires
            fits_buffer(self.buffer@.len() as int),
        ensures
            r.wf(),
            r.buffer_view() == self.buffer@,
            r.offset_view() == FIRST_PDU_OFFSET,
            r.length_view() == self.free_offset,
            r.delta_view() == 0,
            r.remaining() == pdu_chain(self.buffer@, FIRST_PDU_OFFSET as int, self.free_offset as int),
    {
        EtherCATPDUOffsets::new(self.buffer.as_slice(), self.free_offset, 0)
    }

    /// Offsets of the datagram payloads.
    pub fn dlpdu_payload_offsets(&self) -> (r: EtherCATPDUOffsets)
        requires
            fits_buffer(self.buffer@.len() as int),
        ensures
            r.wf(),
            r.buffer_view() == self.buffer@,
            r.offset_view() == FIRST_PDU_OFFSET,
            r.length_view() == self.free_offset,
            r.delta_view() == PDU_HEADER_SIZE,
            r.remaining() == pdu_chain(self.buffer@, FIRST_PDU_OFFSET as int, self.free_offset as int),
    {
        EtherCATPDUOffsets::new(self.buffer.as_slice(), self.free_offset, PDU_HEADER_SIZE)
    }

    /// Clears the buffer and writes the headers of an empty frame.
    pub fn init(&mut self)
        requires
            FIRST_PDU_OFFSET <= old(self).buffer@.len(),
        ensures
            final(self).buffer@ == init_spec(old(self).buffer@.len()),
            final(self).free_offset == FIRST_PDU_OFFSET,
            final(self).index == 0,
    {
        let n = self.buffer.len();
        clear_range(&mut self.buffer, 0, n);
        proof {
            assert(self.buffer@ =~= Seq::new(n as nat, |i: int| 0u8));
        }
        set_ethercat_default_at(&mut self.buffer);
        set_ec_length_at(&mut self.buffer, ETHERNET_HEADER_SIZE, 0);
        set_ec_type_at(&mut self.buffer, ETHERNET_HEADER_SIZE, 1);
        self.free_offset = FIRST_PDU_OFFSET;
        self.index = 0;
    }

    /// The bytes of the frame so far, for writing.
    pub fn packet_mut(&mut self) -> (r: &mut [u8])
        requires
            old(self).free_offset <= old(self).buffer@.len(),
        ensures
            r@ == old(self).buffer@.subrange(0, old(self).free_offset as int),
    {
        let fo = self.free_offset;
        let s = self.buffer.as_mut_slice();
        let (head, _tail) = s.split_at_mut(fo);
        head
    }

    /// Appends a datagram with the given command, addresses and payload and
    /// a zero working counter, links it from the previous datagram and
    /// updates the EtherCAT header.
    fn add_command(&mut self, command: CommandType, adp: u16, ado: u16, data: &[u8]) -> (r: Result<
        (),
        Error,
    >)
        requires
            old(self).can_add(),
        ensures
            ({
                let (res, s, fo) = add_command_spec(
                    old(self).buffer@,
                    old(self).free_offset as int,
                    old(self).index,
                    command_type_code(command),
                    adp as int,
                    ado as int,
                    data@,
                );
                &&& r == res
                &&& final(self).buffer@ == s
                &&& final(self).free_offset == fo
                &&& final(self).index == old(self).index
            }),
    {
        let data_len = data.len();
        if data_len > MAX_PDU_DATAGRAM {
            return Err(Error::LargeData);
        }
        let dlpdu_len = data_len + PDU_HEADER_SIZE + WKC_LENGTH;
        if dlpdu_len > self.buffer.len() - self.free_offset {
            return Err(Error::SmallBuffer);
        }
        let fo = self.free_offset;
        let pre = last_pdu_offset(self.buffer.as_slice(), fo);
        let ghost chain = pdu_chain(self.buffer@, FIRST_PDU_OFFSET as int, fo as int);
        if let Some(pre_dlpdu_offset) = pre {
            proof {
                lemma_chain_elements(self.buffer@, FIRST_PDU_OFFSET as int, fo as int);
                assert(chain.contains(chain.last()));
            }
            set_pdu_has_next_at(&mut self.buffer, pre_dlpdu_offset, true);
        }
        let ghost s1 = self.buffer@;
        set_pdu_command_type_at(&mut self.buffer, fo, command.to_u8());
        set_pdu_adp_at(&mut self.buffer, fo, adp);
        set_pdu_ado_at(&mut self.buffer, fo, ado);
        set_pdu_index_at(&mut self.buffer, fo, self.index);
        set_pdu_is_circulated_at(&mut self.buffer, fo, false);
        set_pdu_has_next_at(&mut self.buffer, fo, false);
        set_pdu_irq_at(&mut self.buffer, fo, 0);
        set_pdu_length_at(&mut self.buffer, fo, data_len as u16);
        copy_into(&mut self.buffer, fo + PDU_HEADER_SIZE, data);
        self.buffer[fo + PDU_HEADER_SIZE + data_len] = 0;
        self.buffer[fo + PDU_HEADER_SIZE + data_len + 1] = 0;
        let ec_frame_len = ec_length_at(self.buffer.as_slice(), ETHERNET_HEADER_SIZE);
        let datagrams_length = ec_frame_len as usize + dlpdu_len;
        if datagrams_length > MAX_ETHERCAT_DATAGRAM {
            return Err(Error::LargeData);
        }
        set_ec_length_at(&mut self.buffer, ETHERNET_HEADER_SIZE, datagrams_length as u16);
        self.free_offset = fo + dlpdu_len;
        Ok(())
    }

    /// Appends a APRD datagram.
    pub fn add_aprd(&mut self, adp: u16, ado: u16, data: &[u8]) -> (r: Result<(), Error>)
        requires
            old(self).can_add(),
        ensures
            (r, final(self).buffer@, final(self).free_offset as int) == add_command_spec(
                old(self).buffer@,
                old(self).free_offset as int,
                old(self).index,
                1,
                adp as int,
                ado as int,
                data@,
            ),
            final(self).index == old(self).index,
    {
        self.add_command(CommandType::APRD, adp, ado, data)
    }

    /// Appends a FPRD datagram.
    pub fn add_fprd(&mut self, adp: u16, ado: u16, data: &[u8]) -> (r: Result<(), Error>)
        requires
            old(self).can_add(),
        ensures
            (r, final(self).buffer@, final(self).free_offset as int) == add_command_spec(
                old(self).buffer@,
                old(self).free_offset as int,
                old(self).index,
                4,
                adp as int,
                ado as int,
                data@,
            ),
            final(self).index == old(self).index,
    {
        self.add_command(CommandType::FPRD, adp, ado, data)
    }

    /// Appends a BRD datagram.
    pub fn add_brd(&mut self, adp: u16, ado: u16, data: &[u8]) -> (r: Result<(), Error>)
        requires
            old(self).can_add(),
        ensures
            (r, final(self).buffer@, final(self).free_offset as int) == add_command_spec(
                old(self).buffer@,
                old(self).free_offset as int,
                old(self).index,
                7,
                adp as int,
                ado as int,
                data@,
            ),
            final(self).index == old(self).index,
    {
        self.add_command(CommandType::BRD, adp, ado, data)
    }

    /// Appends a LRD datagram for the logical address `adr`.
    pub fn add_lrd(&mut self, adr: u32, data: &[u8]) -> (r: Result<(), Error>)
        requires
            old(self).can_add(),
        ensures
            (r, final(self).buffer@, final(self).free_offset as int) == add_command_spec(
                old(self).buffer@,
                old(self).free_offset as int,
                old(self).index,
                10,
                divide_address_spec(adr).0 as int,
                divide_address_spec(adr).1 as int,
                data@,
            ),
            final(self).index == old(self).index,
    {
        let (adp, ado) = divide_address(adr);
        self.add_command(CommandType::LRD, adp, ado, data)
    }

    /// Appends a APWR datagram.
    pub fn add_apwr(&mut self, adp: u16, ado: u16, data: &[u8]) -> (r: Result<(), Error>)
        requires
            old(self).can_add(),
        ensures
            (r, final(self).buffer@, final(self).free_offset as int) == add_command_spec(
                old(self).buffer@,
                old(self).free_offset as int,
                old(self).index,
                2,
                adp as int,
                ado as int,
                data@,
            ),
            final(self).index == old(self).index,
    {
        self.add_command(CommandType::APWR, adp, ado, data)
    }

    /// Appends a FPWR datagram.
    pub fn add_fpwr(&mut self, adp: u16, ado: u16, data: &[u8]) -> (r: Result<(), Error>)
        requires
            old(self).can_add(),
        ensures
            (r, final(self).buffer@, final(self).free_offset as int) == add_command_spec(
                old(self).buffer@,
                old(self).free_offset as int,
                old(self).index,
                5,
                adp as int,
                ado as int,
                data@,
            ),
            final(self).index == old(self).index,
    {
        self.add_command(CommandType::FPWR, adp, ado, data)
    }

    /// Appends a BWR datagram.
    pub fn add_bwr(&mut self, adp: u16, ado: u16, data: &[u8]) -> (r: Result<(), Error>)
        requires
            old(self).can_add(),
        ensures
            (r, final(self).buffer@, final(self).free_offset as int) == add_command_spec(
                old(self).buffer@,
                old(self).free_offset as int,
                old(self).index,
                8,
                adp as int,
                ado as int,
                data@,
            ),
            final(self).index == old(self).index,
    {
        self.add_command(CommandType::BWR, adp, ado, data)
    }

    /// Appends a LWR datagram for the logical address `adr`.
    pub fn add_lwr(&mut self, adr: u32, data: &[u8]) -> (r: Result<(), Error>)
        requires
            old(self).can_add(),
        ensures
            (r, final(self).buffer@, final(self).free_offset as int) == add_command_spec(
                old(self).buffer@,
                old(self).free_offset as int,
                old(self).index,
                11,
                divide_address_spec(adr).0 as int,
                divide_address_spec(adr).1 as int,
                data@,
            ),
            final(self).index == old(self).index,
    {
        let (adp, ado) = divide_address(adr);
        self.add_command(CommandType::LWR, adp, ado, data)
    }

    /// Appends a APRW datagram.
    pub fn add_aprw(&mut self, adp: u16, ado: u16, data: &[u8]) -> (r: Result<(), Error>)
        requires
            old(self).can_add(),
        ensures
            (r, final(self).buffer@, final(self).free_offset as int) == add_command_spec(
                old(self).buffer@,
                old(self).free_offset as int,
                old(self).index,
                3,
                adp as int,
                ado as int,
                data@,
            ),
            final(self).index == old(self).index,
    {
        self.add_command(CommandType::APRW, adp, ado, data)
    }

    /// Appends a FPRW datagram.
    pub fn add_fprw(&mut self, adp: u16, ado: u16, data: &[u8]) -> (r: Result<(), Error>)
        requires
            old(self).can_add(),
        ensures
            (r, final(self).buffer@, final(self).free_offset as int) == add_command_spec(
                old(self).buffer@,
                old(self).free_offset as int,
                old(self).index,
                6,
                adp as int,
                ado as int,
                data@,
            ),
            final(self).index == old(self).index,
    {
        self.add_command(CommandType::FPRW, adp, ado, data)
    }

    /// Appends a BRW datagram.
    pub fn add_brw(&mut self, adp: u16, ado: u16, data: &[u8]) -> (r: Result<(), Error>)
        requires
            old(self).can_add(),
        ensures
            (r, final(self).buffer@, final(self).free_offset as int) == add_command_spec(
                old(self).buffer@,
                old(self).free_offset as int,
                old(self).index,
                9,
                adp as int,
                ado as int,
                data@,
            ),
            final(self).index == old(self).index,
    {
        self.add_command(CommandType::BRW, adp, ado, data)
    }

    /// Appends a LRW datagram for the logical address `adr`.
    pub fn add_lrw(&mut self, adr: u32, data: &[u8]) -> (r: Result<(), Error>)
        requires
            old(self).can_add(),
        ensures
            (r, final(self).buffer@, final(self).free_offset as int) == add_command_spec(
                old(self).buffer@,
                old(self).free_offset as int,
                old(self).index,
                12,
                divide_address_spec(adr).0 as int,
                divide_address_spec(adr).1 as int,
                data@,
            ),
            final(self).index == old(self).index,
    {
        let (adp, ado) = divide_address(adr);
        self.add_command(CommandType::LRW, adp, ado, data)
    }

    /// Appends a ARMW datagram.
    pub fn add_armw(&mut self, adp: u16, ado: u16, data: &[u8]) -> (r: Result<(), Error>)
        requires
            old(self).can_add(),
        ensures
            (r, final(self).buffer@, final(self).free_offset as int) == add_command_spec(
                old(self).buffer@,
                old(self).free_offset as int,
                old(self).index,
                13,
                adp as int,
                ado as int,
                data@,
            ),
            final(self).index == old(self).index,
    {
        self.add_command(CommandType::ARMW, adp, ado, data)
    }

    /// Appends a FRMW datagram.
    pub fn add_frmw(&mut self, adp: u16, ado: u16, data: &[u8]) -> (r: Result<(), Error>)
        requires
            old(self).can_add(),
        ensures
            (r, final(self).buffer@, final(self).free_offset as int) == add_command_spec(
                old(self).buffer@,
                old(self).free_offset as int,
                old(self).index,
                14,
                adp as int,
                ado as int,
                data@,
            ),
            final(self).index == old(self).index,
    {
        self.add_command(CommandType::FRMW, adp, ado, data)
    }

    /// Appends one APRD datagram for each of the first `num_slaves` slave
    /// positions, stopping at the first that does not fit.
    pub fn add_aprd_all_slave(&mut self, ado: u16, data: &[u8], num_slaves: u16) -> (r: Result<
        (),
        Error,
    >)
        requires
            old(self).can_add(),
        ensures
            (r, final(self).buffer@, final(self).free_offset as int) == add_all_slaves_spec(
                old(self).buffer@,
                old(self).free_offset as int,
                old(self).index,
                1,
                ado as int,
                data@,
                0,
                num_slaves as int,
            ),
            final(self).index == old(self).index,
    {
        let mut i: u16 = 0;
        while i < num_slaves
            invariant
                self.can_add(),
                self.index == old(self).index,
                i <= num_slaves,
                add_all_slaves_spec(
                    old(self).buffer@,
                    old(self).free_offset as int,
                    old(self).index,
                    1,
                    ado as int,
                    data@,
                    0,
                    num_slaves as int,
                ) == add_all_slaves_spec(
                    self.buffer@,
                    self.free_offset as int,
                    self.index,
                    1,
                    ado as int,
                    data@,
                    i as int,
                    num_slaves as int,
                ),
            decreases num_slaves - i,
        {
            let ghost s0 = self.buffer@;
            let ghost fo0 = self.free_offset as int;
            let r = self.add_aprd(get_ap_adp(i), ado, data);
            proof {
                lemma_add_command_keeps_len(s0, fo0, self.index, 1, get_ap_adp_spec(i) as int, ado as int, data@);
            }
            if r.is_err() {
                return r;
            }
            i = i + 1;
        }
        Ok(())
    }

    /// Appends one APWR datagram for each of the first `num_slaves` slave
    /// positions, stopping at the first that does not fit.
    pub fn add_apwr_all_slave(&mut self, ado: u16, data: &[u8], num_slaves: u16) -> (r: Result<
        (),
        Error,
    >)
        requires
            old(self).can_add(),
        ensures
            (r, final(self).buffer@, final(self).free_offset as int) == add_all_slaves_spec(
                old(self).buffer@,
                old(self).free_offset as int,
                old(self).index,
                2,
                ado as int,
                data@,
                0,
                num_slaves as int,
            ),
            final(self).index == old(self).index,
    {
        let mut i: u16 = 0;
        while i < num_slaves
            invariant
                self.can_add(),
                self.index == old(self).index,
                i <= num_slaves,
                add_all_slaves_spec(
                    old(self).buffer@,
                    old(self).free_offset as int,
                    old(self).index,
                    2,
                    ado as int,
                    data@,
                    0,
                    num_slaves as int,
                ) == add_all_slaves_spec(
                    self.buffer@,
                    self.free_offset as int,
                    self.index,
                    2,
                    ado as int,
                    data@,
                    i as int,
                    num_slaves as int,
                ),
            decreases num_slaves - i,
        {
            let ghost s0 = self.buffer@;
            let ghost fo0 = self.free_offset as int;
            let r = self.add_apwr(get_ap_adp(i), ado, data);
            proof {
                lemma_add_command_keeps_len(s0, fo0, self.index, 2, get_ap_adp_spec(i) as int, ado as int, data@);
            }
            if r.is_err() {
                return r;
            }
            i = i + 1;
        }
        Ok(())
    }

    /// What adding a datagram needs: room for both headers, a free offset
    /// inside the buffer, and a buffer far from the end of the address space.
    pub open spec fn can_add(&self) -> bool {
        &&& FIRST_PDU_OFFSET <= self.buffer@.len()
        &&& self.free_offset <= self.buffer@.len()
        &&& fits_buffer(self.buffer@.len() as int)
    }
}

/// Adding a datagram keeps the buffer's length and the free offset inside it.
pub proof fn lemma_add_command_keeps_len(
    s: Seq<u8>,
    fo: int,
    index: u8,
    cmd: int,
    adp: int,
    ado: int,
    data: Seq<u8>,
)
    requires
        FIRST_PDU_OFFSET <= s.len(),
        0 <= fo <= s.len(),
    ensures
        ({
            let (r, s2, fo2) = add_command_spec(s, fo, index, cmd, adp, ado, data);
            &&& s2.len() == s.len()
            &&& 0 <= fo2 <= s.len()
        }),
{
    let n = data.len() as int;
    let dlpdu_len = n + PDU_HEADER_SIZE + WKC_LENGTH;
    if n <= MAX_PDU_DATAGRAM && dlpdu_len <= s.len() - fo {
        let chain = pdu_chain(s, FIRST_PDU_OFFSET as int, fo);
        lemma_chain_elements(s, FIRST_PDU_OFFSET as int, fo);
        if chain.len() > 0 {
            let k = chain.len() - 1;
            assert(chain.last() == chain[k]);
        }
        let s1 = if chain.len() > 0 {
            put_pdu_has_next(s, chain.last(), true)
        } else {
            s
        };
        assert(s1.len() == s.len());
        let s2 = put_pdu_header(s1, fo, cmd, adp, ado, index as int, n);
        assert(s2.len() == s.len());
        let s3 = put_bytes(s2, fo + PDU_HEADER_SIZE, data);
        assert(s3.len() == s.len());
    }
}

/// Every offset of a chain is a place where a datagram header lies inside
/// the buffer, between `off` and `end`.
pub proof fn lemma_chain_elements(s: Seq<u8>, off: int, end: int)
    ensures
        forall|i: int|
            0 <= i < pdu_chain(s, off, end).len() ==> {
                let o = #[trigger] pdu_chain(s, off, end)[i];
                &&& off <= o < end
                &&& 0 <= o
                &&& o + PDU_HEADER_SIZE <= s.len()
            },
    decreases if off < end { end - off } else { 0 },
{
    if 0 <= off && off + PDU_HEADER_SIZE <= s.len() && off < end {
        lemma_pdu_size_positive(s, off);
        lemma_chain_elements(s, off + pdu_size(s, off), end);
        let c = pdu_chain(s, off, end);
        let t = pdu_chain(s, off + pdu_size(s, off), end);
        assert forall|i: int| 0 <= i < c.len() implies {
            let o = #[trigger] c[i];
            &&& off <= o < end
            &&& 0 <= o
            &&& o + PDU_HEADER_SIZE <= s.len()
        } by {
            if i > 0 {
                assert(c[i] == t[i - 1]);
            }
        }
    }
}

/// A walk that reaches `end` starts at or before it.
pub proof fn lemma_chain_reaches_ordered(s: Seq<u8>, off: int, end: int)
    requires
        chain_reaches(s, off, end),
    ensures
        off <= end,
    decreases if off < end { end - off } else { 0 },
{
    if off != end {
        lemma_pdu_size_positive(s, off);
        lemma_chain_reaches_ordered(s, off + pdu_size(s, off), end);
    }
}

/// The chain depends only on the length fields of its datagrams.
pub proof fn lemma_chain_same_lengths(s: Seq<u8>, s2: Seq<u8>, off: int, end: int)
    requires
        chain_reaches(s, off, end),
        s2.len() == s.len(),
        forall|i: int|
            0 <= i < pdu_chain(s, off, end).len() ==> pdu_length(s2, #[trigger] pdu_chain(s, off, end)[i])
                == pdu_length(s, pdu_chain(s, off, end)[i]),
    ensures
        chain_reaches(s2, off, end),
        pdu_chain(s2, off, end) == pdu_chain(s, off, end),
    decreases if off < end { end - off } else { 0 },
{
    if off != end {
        lemma_pdu_size_positive(s, off);
        let next = off + pdu_size(s, off);
        let c = pdu_chain(s, off, end);
        assert(c[0] == off);
        assert(pdu_length(s2, off) == pdu_length(s, off));
        assert forall|i: int|
            0 <= i < pdu_chain(s, next, end).len() implies pdu_length(
            s2,
            #[trigger] pdu_chain(s, next, end)[i],
        ) == pdu_length(s, pdu_chain(s, next, end)[i]) by {
            assert(pdu_chain(s, next, end)[i] == c[i + 1]);
        }
        lemma_chain_same_lengths(s, s2, next, end);
    }
}

/// Walking from `a` to `b` and on from `b` to `c` is walking from `a` to `c`.
pub proof fn lemma_chain_append(s: Seq<u8>, a: int, b: int, c: int)
    requires
        chain_reaches(s, a, b),
        chain_reaches(s, b, c),
    ensures
        chain_reaches(s, a, c),
        pdu_chain(s, a, c) == pdu_chain(s, a, b) + pdu_chain(s, b, c),
    decreases if a < b { b - a } else { 0 },
{
    lemma_chain_reaches_ordered(s, a, b);
    lemma_chain_reaches_ordered(s, b, c);
    if a == b {
        assert(pdu_chain(s, a, b) =~= Seq::<int>::empty());
        assert(pdu_chain(s, a, c) =~= pdu_chain(s, a, b) + pdu_chain(s, b, c));
    } else {
        lemma_pdu_size_positive(s, a);
        let next = a + pdu_size(s, a);
        lemma_chain_append(s, next, b, c);
        assert(pdu_chain(s, a, c) =~= pdu_chain(s, a, b) + pdu_chain(s, b, c));
    }
}

/// A datagram header written at `o` reads back its fields and leaves the
/// bytes outside `o..o + 10` alone.
pub proof fn lemma_put_pdu_header(s: Seq<u8>, o: int, cmd: int, adp: int, ado: int, index: int, n: int)
    requires
        0 <= o,
        o + PDU_HEADER_SIZE <= s.len(),
        0 <= cmd < 256,
        0 <= adp < 65536,
        0 <= ado < 65536,
        0 <= index < 256,
        0 <= n < 2048,
    ensures
        ({
            let t = put_pdu_header(s, o, cmd, adp, ado, index, n);
            &&& t.len() == s.len()
            &&& forall|k: int| 0 <= k < s.len() && !(o <= k < o + PDU_HEADER_SIZE) ==> #[trigger] t[k] == s[k]
            &&& pdu_command_type(t, o) == cmd
            &&& pdu_index(t, o) == index
            &&& pdu_adp(t, o) == adp
            &&& pdu_ado(t, o) == ado
            &&& pdu_length(t, o) == n
            &&& !pdu_is_circulated(t, o)
            &&& !pdu_has_next(t, o)
            &&& pdu_irq(t, o) == 0
        }),
{
    let t1 = s.update(o, cmd as u8);
    let t2 = put_le16(t1, o + 2, adp);
    let t3 = put_le16(t2, o + 4, ado);
    let t4 = t3.update(o + 1, index as u8);
    let t5 = put_pdu_is_circulated(t4, o, false);
    let t6 = put_pdu_has_next(t5, o, false);
    let t7 = put_le16(t6, o + 8, 0);
    let t = put_pdu_length(t7, o, n);
    crate::frame::lemma_pdu_field_roundtrip(t7, o, n, false);
    crate::frame::lemma_pdu_field_roundtrip(t6, o, 0, false);
    crate::frame::lemma_pdu_field_roundtrip(t5, o, 0, false);
    crate::frame::lemma_pdu_field_roundtrip(t4, o, 0, false);
    crate::frame::lemma_pdu_field_roundtrip(t2, o, ado, false);
    crate::frame::lemma_pdu_field_roundtrip(t1, o, adp, false);
    assert(pdu_adp(t7, o) == adp);
    assert(pdu_ado(t7, o) == ado);
    assert(pdu_irq(t7, o) == 0);
    assert(!pdu_is_circulated(t6, o));
}

/// The bytes that `add_command_spec` changes, when it succeeds on a
/// well-formed frame: the last datagram's link bit, the new datagram at
/// `fo`, and the EtherCAT header.
#[verifier::rlimit(60)]
proof fn lemma_add_command_bytes(
    s: Seq<u8>,
    fo: int,
    index: u8,
    cmd: int,
    adp: int,
    ado: int,
    data: Seq<u8>,
)
    requires
        frame_wf(s, fo),
        0 <= cmd < 256,
        0 <= adp < 65536,
        0 <= ado < 65536,
        add_command_spec(s, fo, index, cmd, adp, ado, data).0 is Ok,
    ensures
        ({
            let s2 = add_command_spec(s, fo, index, cmd, adp, ado, data).1;
            let n = data.len() as int;
            let chain = pdu_chain(s, FIRST_PDU_OFFSET as int, fo);
            &&& s2.len() == s.len()
            &&& forall|k: int|
                FIRST_PDU_OFFSET <= k < fo && (chain.len() == 0 || k != chain.last() + 7) ==> #[trigger] s2[k]
                    == s[k]
            &&& chain.len() > 0 ==> s2[chain.last() + 7] == crate::frame::put_bit_byte(
                s[chain.last() + 7],
                7,
                true,
            )
            &&& pdu_command_type(s2, fo) == cmd
            &&& pdu_index(s2, fo) == index
            &&& pdu_adp(s2, fo) == adp
            &&& pdu_ado(s2, fo) == ado
            &&& pdu_length(s2, fo) == n
            &&& !pdu_is_circulated(s2, fo)
            &&& !pdu_has_next(s2, fo)
            &&& pdu_irq(s2, fo) == 0
            &&& s2.subrange(fo + PDU_HEADER_SIZE, fo + PDU_HEADER_SIZE + n) == data
            &&& s2[fo + PDU_HEADER_SIZE + n] == 0
            &&& s2[fo + PDU_HEADER_SIZE + n + 1] == 0
            &&& ec_length(s2, ETHERNET_HEADER_SIZE as int) == fo - FIRST_PDU_OFFSET + n
                + PDU_HEADER_SIZE + WKC_LENGTH
        }),
{
    let n = data.len() as int;
    let dlpdu_len = n + PDU_HEADER_SIZE + WKC_LENGTH;
    let chain = pdu_chain(s, FIRST_PDU_OFFSET as int, fo);
    lemma_chain_elements(s, FIRST_PDU_OFFSET as int, fo);
    if chain.len() > 0 {
        assert(chain.last() == chain[chain.len() - 1]);
    }
    let s1 = if chain.len() > 0 {
        put_pdu_has_next(s, chain.last(), true)
    } else {
        s
    };
    let s2 = put_pdu_header(s1, fo, cmd, adp, ado, index as int, n);
    lemma_put_pdu_header(s1, fo, cmd, adp, ado, index as int, n);
    let s3 = put_bytes(s2, fo + PDU_HEADER_SIZE, data);
    let s4 = s3.update(fo + PDU_HEADER_SIZE + n, 0u8).update(fo + PDU_HEADER_SIZE + n + 1, 0u8);
    let total = ec_length(s4, ETHERNET_HEADER_SIZE as int) + dlpdu_len;
    let s5 = put_ec_length(s4, ETHERNET_HEADER_SIZE as int, total);
    assert forall|k: int| 0 <= k < fo + PDU_HEADER_SIZE implies #[trigger] s4[k] == s2[k] by {
        assert(s3[k] == s2[k]);
    }
    assert forall|k: int| 16 <= k < fo + PDU_HEADER_SIZE implies #[trigger] s5[k] == s2[k] by {
        assert(s4[k] == s2[k]);
    }
    assert(s4[14] == s[14] && s4[15] == s[15]);
    assert(chain.len() > 0 ==> s5[chain.last() + 7] == s1[chain.last() + 7]) by {
        if chain.len() > 0 {
            lemma_chain_fits(s, FIRST_PDU_OFFSET as int, fo);
            let l = chain.last();
            lemma_pdu_size_positive(s, l);
            assert(l + pdu_size(s, l) <= fo);
            assert(s5[l + 7] == s2[l + 7]);
        }
    }
    assert(s3.subrange(fo + PDU_HEADER_SIZE, fo + PDU_HEADER_SIZE + n) =~= data);
    assert(s5.subrange(fo + PDU_HEADER_SIZE, fo + PDU_HEADER_SIZE + n) =~= data);
    assert(pdu_length(s5, fo) == pdu_length(s2, fo));
    assert(pdu_adp(s5, fo) == pdu_adp(s2, fo));
    assert(pdu_ado(s5, fo) == pdu_ado(s2, fo));
    assert(pdu_irq(s5, fo) == pdu_irq(s2, fo));
    let x = s4[15];
    let v = total;
    assert(((((x / 8) * 8 + (v / 256) % 8) as u8) % 8) as int == (v / 256) % 8) by {
        let h = ((v / 256) % 8) as u8;
        assert((((x / 8) * 8 + h) as u8) % 8 == h) by (bit_vector)
            requires
                h < 8,
        ;
    }
}

/// Adding a datagram to a well-formed frame keeps it well-formed and
/// appends the datagram's offset to the chain; the earlier datagrams keep
/// their lengths, and the new one reads back the command, addresses, index,
/// payload and a zero working counter that were written.
pub proof fn lemma_add_command_appends(
    s: Seq<u8>,
    fo: int,
    index: u8,
    cmd: int,
    adp: int,
    ado: int,
    data: Seq<u8>,
)
    requires
        frame_wf(s, fo),
        0 <= cmd < 256,
        0 <= adp < 65536,
        0 <= ado < 65536,
    ensures
        ({
            let (r, s2, fo2) = add_command_spec(s, fo, index, cmd, adp, ado, data);
            let n = data.len() as int;
            let dlpdu_len = n + PDU_HEADER_SIZE + WKC_LENGTH;
            &&& r is Ok <==> (n <= MAX_PDU_DATAGRAM && fo + dlpdu_len <= s.len() && fo - FIRST_PDU_OFFSET
                + dlpdu_len <= MAX_ETHERCAT_DATAGRAM)
            &&& r is Ok ==> {
                &&& frame_wf(s2, fo2)
                &&& fo2 == fo + dlpdu_len
                &&& pdu_chain(s2, FIRST_PDU_OFFSET as int, fo2) == pdu_chain(
                    s,
                    FIRST_PDU_OFFSET as int,
                    fo,
                ).push(fo)
                &&& pdu_command_type(s2, fo) == cmd
                &&& pdu_index(s2, fo) == index
                &&& pdu_adp(s2, fo) == adp
                &&& pdu_ado(s2, fo) == ado
                &&& pdu_length(s2, fo) == n
                &&& !pdu_is_circulated(s2, fo)
                &&& !pdu_has_next(s2, fo)
                &&& pdu_irq(s2, fo) == 0
                &&& s2.subrange(fo + PDU_HEADER_SIZE, fo + PDU_HEADER_SIZE + n) == data
                &&& crate::frame::pdu_wkc(s2, fo) == Some(0int)
            }
            &&& r is Err ==> fo2 == fo
        }),
{
    let n = data.len() as int;
    let dlpdu_len = n + PDU_HEADER_SIZE + WKC_LENGTH;
    let (r, s2, fo2) = add_command_spec(s, fo, index, cmd, adp, ado, data);
    if n <= MAX_PDU_DATAGRAM && dlpdu_len <= s.len() - fo {
        let chain = pdu_chain(s, FIRST_PDU_OFFSET as int, fo);
        lemma_chain_elements(s, FIRST_PDU_OFFSET as int, fo);
        let s1 = if chain.len() > 0 {
            put_pdu_has_next(s, chain.last(), true)
        } else {
            s
        };
        let s2a = put_pdu_header(s1, fo, cmd, adp, ado, index as int, n);
        let s3 = put_bytes(s2a, fo + PDU_HEADER_SIZE, data);
        let s4 = s3.update(fo + PDU_HEADER_SIZE + n, 0u8).update(fo + PDU_HEADER_SIZE + n + 1, 0u8);
        assert forall|k: int| 14 <= k < 16 implies #[trigger] s4[k] == s[k] by {
            assert(s3[k] == s2a[k]);
            if chain.len() > 0 {
                assert(chain.last() == chain[chain.len() - 1]);
            }
        }
        assert(ec_length(s4, 14) == ec_length(s, 14));
        if r is Ok {
            lemma_add_command_bytes(s, fo, index, cmd, adp, ado, data);
            lemma_chain_fits(s, FIRST_PDU_OFFSET as int, fo);
            // the old chain survives
            assert forall|i: int| 0 <= i < chain.len() implies pdu_length(s2, #[trigger] chain[i])
                == pdu_length(s, chain[i]) by {
                let o = chain[i];
                lemma_pdu_size_positive(s, o);
                if chain.len() > 0 && o == chain.last() {
                    crate::frame::lemma_pdu_field_roundtrip(s, o, 0, true);
                    assert(s2[o + 6] == s[o + 6]);
                    assert(s2[o + 7] == put_pdu_has_next(s, o, true)[o + 7]);
                } else {
                    if chain.len() > 0 {
                        assert(chain.last() == chain[chain.len() - 1]);
                        lemma_chain_distinct(s, FIRST_PDU_OFFSET as int, fo);
                    }
                    assert(s2[o + 6] == s[o + 6]);
                    assert(s2[o + 7] == s[o + 7]);
                }
            }
            lemma_chain_same_lengths(s, s2, FIRST_PDU_OFFSET as int, fo);
            // the new datagram
            lemma_pdu_size_positive(s2, fo);
            assert(chain_reaches(s2, fo + pdu_size(s2, fo), fo2));
            assert(chain_reaches(s2, fo, fo2));
            assert(pdu_chain(s2, fo + pdu_size(s2, fo), fo2) =~= Seq::<int>::empty());
            assert(pdu_chain(s2, fo, fo2) =~= seq![fo]);
            lemma_chain_append(s2, FIRST_PDU_OFFSET as int, fo, fo2);
            assert(pdu_chain(s2, FIRST_PDU_OFFSET as int, fo2) =~= chain.push(fo));
            assert(le16(s2, fo + PDU_HEADER_SIZE + n) == 0);
        }
    }
}

/// Each datagram of a chain that reaches `end` ends at or before `end`.
pub proof fn lemma_chain_fits(s: Seq<u8>, off: int, end: int)
    requires
        chain_reaches(s, off, end),
    ensures
        forall|i: int|
            0 <= i < pdu_chain(s, off, end).len() ==> #[trigger] pdu_chain(s, off, end)[i] + pdu_size(
                s,
                pdu_chain(s, off, end)[i],
            ) <= end,
    decreases if off < end { end - off } else { 0 },
{
    if off != end {
        lemma_pdu_size_positive(s, off);
        let next = off + pdu_size(s, off);
        lemma_chain_fits(s, next, end);
        lemma_chain_reaches_ordered(s, next, end);
        let c = pdu_chain(s, off, end);
        let t = pdu_chain(s, next, end);
        assert forall|i: int| 0 <= i < c.len() implies #[trigger] c[i] + pdu_size(s, c[i]) <= end by {
            if i > 0 {
                assert(c[i] == t[i - 1]);
            }
        }
    }
}

/// The offsets of a chain strictly increase.
pub proof fn lemma_chain_distinct(s: Seq<u8>, off: int, end: int)
    ensures
        forall|i: int, j: int|
            0 <= i < j < pdu_chain(s, off, end).len() ==> #[trigger] pdu_chain(s, off, end)[i] + PDU_HEADER_SIZE
                + WKC_LENGTH <= #[trigger] pdu_chain(s, off, end)[j],
    decreases if off < end { end - off } else { 0 },
{
    if 0 <= off && off + PDU_HEADER_SIZE <= s.len() && off < end {
        lemma_pdu_size_positive(s, off);
        let next = off + pdu_size(s, off);
        lemma_chain_distinct(s, next, end);
        lemma_chain_elements(s, next, end);
        let c = pdu_chain(s, off, end);
        let t = pdu_chain(s, next, end);
        assert forall|i: int, j: int| 0 <= i < j < c.len() implies #[trigger] c[i] + PDU_HEADER_SIZE
            + WKC_LENGTH <= #[trigger] c[j] by {
            assert(c[j] == t[j - 1]);
            if i > 0 {
                assert(c[i] == t[i - 1]);
            }
        }
    }
}

/// `init` gives a well-formed frame with no datagrams.
pub proof fn lemma_init_wf(len: nat)
    requires
        FIRST_PDU_OFFSET <= len,
    ensures
        frame_wf(init_spec(len), FIRST_PDU_OFFSET as int),
        pdu_chain(init_spec(len), FIRST_PDU_OFFSET as int, FIRST_PDU_OFFSET as int).len() == 0,
        init_spec(len).len() == len,
{
    let z = Seq::new(len, |i: int| 0u8);
    let e = eth_default(z);
    assert(e[15] == 0);
    let x = e[15];
    assert(((((x / 8) * 8 + 0) as u8) % 16 + 16) as u8 % 8 == 0) by (bit_vector)
        requires
            x == 0,
    ;
}

/// Outcome of adding the datagrams `reqs` (command code, adp, ado, payload)
/// in turn to the frame `(s, fo)`, stopping at the first failure.
pub open spec fn add_commands_spec(s: Seq<u8>, fo: int, index: u8, reqs: Seq<(u8, u16, u16, Seq<u8>)>) -> (
    Result<(), Error>,
    Seq<u8>,
    int,
)
    decreases reqs.len(),
{
    if reqs.len() == 0 {
        (Ok(()), s, fo)
    } else {
        let (cmd, adp, ado, data) = reqs[0];
        let (r, s1, fo1) = add_command_spec(s, fo, index, cmd as int, adp as int, ado as int, data);
        if r is Err {
            (r, s1, fo1)
        } else {
            add_commands_spec(s1, fo1, index, reqs.drop_first())
        }
    }
}

/// The offsets of the datagrams `reqs` laid one after another from
/// `start`: each one 10 header bytes, its payload and 2 working counter
/// bytes after the one before.
pub open spec fn datagram_offsets(start: int, reqs: Seq<(u8, u16, u16, Seq<u8>)>) -> Seq<int>
    decreases reqs.len(),
{
    if reqs.len() == 0 {
        Seq::empty()
    } else {
        seq![start] + datagram_offsets(
            start + PDU_HEADER_SIZE + reqs[0].3.len() + WKC_LENGTH,
            reqs.drop_first(),
        )
    }
}

/// The bytes that the datagrams `reqs` take in all.
pub open spec fn datagrams_size(reqs: Seq<(u8, u16, u16, Seq<u8>)>) -> int
    decreases reqs.len(),
{
    if reqs.len() == 0 {
        0
    } else {
        PDU_HEADER_SIZE + reqs[0].3.len() + WKC_LENGTH + datagrams_size(reqs.drop_first())
    }
}

/// Adding datagrams that all go in appends each at the free offset of the
/// moment, one after another.
proof fn lemma_add_commands(s: Seq<u8>, fo: int, index: u8, reqs: Seq<(u8, u16, u16, Seq<u8>)>)
    requires
        frame_wf(s, fo),
        add_commands_spec(s, fo, index, reqs).0 is Ok,
    ensures
        ({
            let (_, s2, fo2) = add_commands_spec(s, fo, index, reqs);
            &&& frame_wf(s2, fo2)
            &&& fo2 == fo + datagrams_size(reqs)
            &&& pdu_chain(s2, FIRST_PDU_OFFSET as int, fo2) == pdu_chain(s, FIRST_PDU_OFFSET as int, fo)
                + datagram_offsets(fo, reqs)
        }),
    decreases reqs.len(),
{
    if reqs.len() == 0 {
        assert(datagram_offsets(fo, reqs) =~= Seq::<int>::empty());
        assert(pdu_chain(s, FIRST_PDU_OFFSET as int, fo) + Seq::<int>::empty() =~= pdu_chain(
            s,
            FIRST_PDU_OFFSET as int,
            fo,
        ));
    } else {
        let (cmd, adp, ado, data) = reqs[0];
        lemma_add_command_appends(s, fo, index, cmd as int, adp as int, ado as int, data);
        let (r, s1, fo1) = add_command_spec(s, fo, index, cmd as int, adp as int, ado as int, data);
        assert(r is Ok);
        let rest = reqs.drop_first();
        lemma_add_commands(s1, fo1, index, rest);
        let c = pdu_chain(s, FIRST_PDU_OFFSET as int, fo);
        assert(c.push(fo) + datagram_offsets(fo1, rest) =~= c + datagram_offsets(fo, reqs));
    }
}

/// Law: a frame that `init` cleared and to which the datagrams `reqs` were
/// then added, each one going in, holds them one after another from offset
/// 16: the first at 16, each next one 10 header bytes, the payload and 2
/// working counter bytes after the one before, and the free offset just
/// after the last. These are the offsets `dlpdu_header_offsets` yields.
pub proof fn lemma_init_then_adds_offsets(len: nat, index: u8, reqs: Seq<(u8, u16, u16, Seq<u8>)>)
    requires
        FIRST_PDU_OFFSET <= len,
        add_commands_spec(init_spec(len), FIRST_PDU_OFFSET as int, index, reqs).0 is Ok,
    ensures
        ({
            let (_, s, fo) = add_commands_spec(init_spec(len), FIRST_PDU_OFFSET as int, index, reqs);
            &&& pdu_chain(s, FIRST_PDU_OFFSET as int, fo) == datagram_offsets(FIRST_PDU_OFFSET as int, reqs)
            &&& fo == FIRST_PDU_OFFSET + datagrams_size(reqs)
            &&& frame_wf(s, fo)
        }),
{
    lemma_init_wf(len);
    lemma_add_commands(init_spec(len), FIRST_PDU_OFFSET as int, index, reqs);
    let c = pdu_chain(init_spec(len), FIRST_PDU_OFFSET as int, FIRST_PDU_OFFSET as int);
    assert(c =~= Seq::<int>::empty());
    assert(c + datagram_offsets(FIRST_PDU_OFFSET as int, reqs) =~= datagram_offsets(
        FIRST_PDU_OFFSET as int,
        reqs,
    ));
}

} // verus!
