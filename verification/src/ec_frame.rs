//! The frame used by the command interface: datagrams are found by walking
//! the whole buffer until a datagram with an empty payload, and each
//! datagram keeps the index it is given.
use crate::bytes::{copy_into, clear_range, fits_buffer, put_bytes};
use crate::ethercat_frame::{put_pdu_header, FIRST_PDU_OFFSET};
use crate::frame::{
    command_type_code, ec_length, ec_length_at, eth_default, pdu_length, pdu_length_at,
    pdu_size, put_ec_length, put_ec_type, put_pdu_has_next, set_ec_length_at, set_ec_type_at,
    set_ethercat_default_at, set_pdu_ado_at, set_pdu_adp_at, set_pdu_command_type_at,
    set_pdu_has_next_at, set_pdu_index_at, set_pdu_irq_at, set_pdu_is_circulated_at,
    set_pdu_length_at, CommandType, ETHERNET_HEADER_SIZE, PDU_HEADER_SIZE, WKC_LENGTH,
};
use vstd::prelude::*;
use vstd::slice::slice_subrange;

verus! {

/// Offsets of the datagrams that a walk from `off` finds before `end`; the
/// walk stops at a header outside the buffer or at an empty payload.
pub open spec fn pdu_chain_nz(s: Seq<u8>, off: int, end: int) -> Seq<int>
    decreases if off < end { end - off } else { 0 },
{
    if 0 <= off && off + PDU_HEADER_SIZE <= s.len() && pdu_length(s, off) != 0 && off < end {
        proof {
            crate::ethercat_frame::lemma_pdu_size_positive(s, off);
        }
        seq![off] + pdu_chain_nz(s, off + pdu_size(s, off), end)
    } else {
        Seq::empty()
    }
}

/// Outcome of `EtherCatFrame::add_command` on the frame `(s, fo)`: whether it
/// was added, the new buffer and the new free offset.
pub open spec fn ec_add_command_spec(
    s: Seq<u8>,
    fo: int,
    index: u8,
    cmd: int,
    adp: int,
    ado: int,
    data: Seq<u8>,
) -> (bool, Seq<u8>, int) {
    let n = data.len() as int;
    let dlpdu_len = n + PDU_HEADER_SIZE + WKC_LENGTH;
    if dlpdu_len > s.len() - fo {
        (false, s, fo)
    } else {
        let chain = pdu_chain_nz(s, FIRST_PDU_OFFSET as int, s.len() as int);
        let s1 = if chain.len() > 0 {
            put_pdu_has_next(s, chain.last(), true)
        } else {
            s
        };
        let s2 = put_pdu_header(s1, fo, cmd, adp, ado, index as int, n);
        let s3 = put_bytes(s2, fo + PDU_HEADER_SIZE, data);
        let s4 = s3.update(fo + PDU_HEADER_SIZE + n, 0u8).update(fo + PDU_HEADER_SIZE + n + 1, 0u8);
        let total = ec_length(s4, ETHERNET_HEADER_SIZE as int) + dlpdu_len;
        (true, put_ec_length(s4, ETHERNET_HEADER_SIZE as int, total % 65536), fo + dlpdu_len)
    }
}

/// Every offset of a walk lies between `off` and `end`, with a datagram
/// header inside the buffer.
pub proof fn lemma_chain_nz_elements(s: Seq<u8>, off: int, end: int)
    ensures
        forall|i: int|
            0 <= i < pdu_chain_nz(s, off, end).len() ==> {
                let o = #[trigger] pdu_chain_nz(s, off, end)[i];
                &&& off <= o < end
                &&& 0 <= o
                &&& o + PDU_HEADER_SIZE <= s.len()
            },
    decreases if off < end { end - off } else { 0 },
{
    if 0 <= off && off + PDU_HEADER_SIZE <= s.len() && pdu_length(s, off) != 0 && off < end {
        crate::ethercat_frame::lemma_pdu_size_positive(s, off);
        lemma_chain_nz_elements(s, off + pdu_size(s, off), end);
        let c = pdu_chain_nz(s, off, end);
        let t = pdu_chain_nz(s, off + pdu_size(s, off), end);
        assert forall|i: int| 0 <= i < c.len() implies {
            let o = #[trigger] c[i];
            &&& off <= o < end
            &&& 0 <= o
            &&& o + PDU_HEADER_SIZE <= s.len()
        } by {
            if i > 0 {
                assert(c[i] == t[i - 1]);
            }
        }
    }
}

/// Yields the offsets of the datagrams in a buffer, from a given start.
pub struct EtherCatPduOffsets<'a> {
    buffer: &'a [u8],
    offset: usize,
    length: usize,
}

impl<'a> EtherCatPduOffsets<'a> {
    pub closed spec fn buffer_view(&self) -> Seq<u8> {
        self.buffer@
    }

    /// Offsets that are still to come.
    pub closed spec fn remaining(&self) -> Seq<int> {
        pdu_chain_nz(self.buffer@, self.offset as int, self.length as int)
    }

    pub closed spec fn wf(&self) -> bool {
        fits_buffer(self.buffer@.len() as int)
    }

    /// Walks the datagrams of a frame, which start after the headers.
    pub fn new_for_ethercat_frame(buffer: &'a [u8], length: usize) -> (r: Self)
        requires
            fits_buffer(buffer@.len() as int),
        ensures
            r.wf(),
            r.buffer_view() == buffer@,
            r.remaining() == pdu_chain_nz(buffer@, FIRST_PDU_OFFSET as int, length as int),
    {
        Self::new(buffer, length, FIRST_PDU_OFFSET)
    }

    /// Walks the datagrams that start at `frame_header_size`.
    pub fn new(buffer: &'a [u8], length: usize, frame_header_size: usize) -> (r: Self)
        requires
            fits_buffer(buffer@.len() as int),
        ensures
            r.wf(),
            r.buffer_view() == buffer@,
            r.remaining() == pdu_chain_nz(buffer@, frame_header_size as int, length as int),
    {
        EtherCatPduOffsets { buffer, length, offset: frame_header_size }
    }

    pub fn next(&mut self) -> (r: Option<usize>)
        requires
            old(self).wf(),
        ensures
            final(self).wf(),
            final(self).buffer_view() == old(self).buffer_view(),
            old(self).remaining().len() == 0 ==> r is None && final(self).remaining().len() == 0,
            old(self).remaining().len() > 0 ==> r == Some(old(self).remaining()[0] as usize)
                && final(self).remaining() == old(self).remaining().drop_first(),
    {
        if self.offset >= self.buffer.len() {
            return None;
        }
        if self.buffer.len() - self.offset < PDU_HEADER_SIZE {
            return None;
        }
        let len = pdu_length_at(self.buffer, self.offset) as usize;
        if len == 0 {
            return None;
        }
        if self.offset < self.length {
            let b = self.offset;
            self.offset = self.offset + PDU_HEADER_SIZE + len + WKC_LENGTH;
            proof {
                assert(old(self).remaining() =~= seq![b as int] + self.remaining());
            }
            Some(b)
        } else {
            None
        }
    }
}

/// Yields the datagrams in a buffer, each as its bytes (header, payload and
/// working counter).
pub struct EtherCatPdus<'a> {
    buffer: &'a [u8],
    offset: usize,
    length: usize,
}

impl<'a> EtherCatPdus<'a> {
    pub closed spec fn buffer_view(&self) -> Seq<u8> {
        self.buffer@
    }

    /// Offsets of the datagrams that are still to come.
    pub closed spec fn remaining(&self) -> Seq<int> {
        pdu_chain_nz(self.buffer@, self.offset as int, self.length as int)
    }

    /// Every datagram still to come lies inside the buffer.
    pub closed spec fn wf(&self) -> bool {
        &&& fits_buffer(self.buffer@.len() as int)
        &&& forall|i: int|
            0 <= i < self.remaining().len() ==> #[trigger] self.remaining()[i] + pdu_size(
                self.buffer@,
                self.remaining()[i],
            ) <= self.buffer@.len()
    }

    pub fn new_for_ethercat_frame(buffer: &'a [u8], length: usize) -> (r: Self)
        requires
            fits_buffer(buffer@.len() as int),
            pdus_fit(buffer@, FIRST_PDU_OFFSET as int, length as int),
        ensures
            r.wf(),
            r.buffer_view() == buffer@,
            r.remaining() == pdu_chain_nz(buffer@, FIRST_PDU_OFFSET as int, length as int),
    {
        Self::new(buffer, length, FIRST_PDU_OFFSET)
    }

    pub fn new(buffer: &'a [u8], length: usize, frame_header_size: usize) -> (r: Self)
        requires
            fits_buffer(buffer@.len() as int),
            pdus_fit(buffer@, frame_header_size as int, length as int),
        ensures
            r.wf(),
            r.buffer_view() == buffer@,
            r.remaining() == pdu_chain_nz(buffer@, frame_header_size as int, length as int),
    {
        EtherCatPdus { buffer, length, offset: frame_header_size }
    }

    pub fn next(&mut self) -> (r: Option<&'a [u8]>)
        requires
            old(self).wf(),
        ensures
            final(self).wf(),
            final(self).buffer_view() == old(self).buffer_view(),
            old(self).remaining().len() == 0 ==> r is None && final(self).remaining().len() == 0,
            old(self).remaining().len() > 0 ==> {
                let o = old(self).remaining()[0];
                &&& r matches Some(p) && p@ == old(self).buffer_view().subrange(
                    o,
                    o + pdu_size(old(self).buffer_view(), o),
                )
                &&& final(self).remaining() == old(self).remaining().drop_first()
            },
    {
        if self.offset >= self.buffer.len() {
            return None;
        }
        if self.buffer.len() - self.offset < PDU_HEADER_SIZE {
            return None;
        }
        let len = pdu_length_at(self.buffer, self.offset) as usize;
        if len == 0 {
            return None;
        }
        let start = self.offset;
        if self.offset < self.length {
            let ghost before = self.remaining();
            assert(before[0] == start);
            self.offset = self.offset + PDU_HEADER_SIZE + len + WKC_LENGTH;
            proof {
                assert(before =~= seq![start as int] + self.remaining());
                assert forall|i: int| 0 <= i < self.remaining().len() implies #[trigger] self.remaining()[i]
                    + pdu_size(self.buffer@, self.remaining()[i]) <= self.buffer@.len() by {
                    assert(self.remaining()[i] == before[i + 1]);
                }
            }
            Some(slice_subrange(self.buffer, start, self.offset))
        } else {
            None
        }
    }
}

/// Every datagram that a walk from `off` to `end` finds lies inside the
/// buffer.
pub open spec fn pdus_fit(s: Seq<u8>, off: int, end: int) -> bool {
    forall|i: int|
        0 <= i < pdu_chain_nz(s, off, end).len() ==> #[trigger] pdu_chain_nz(s, off, end)[i] + pdu_size(
            s,
            pdu_chain_nz(s, off, end)[i],
        ) <= s.len()
}

/// The last datagram found by walking the whole buffer.
fn last_pdu_offset_nz(buffer: &[u8]) -> (r: Option<usize>)
    requires
        fits_buffer(buffer@.len() as int),
    ensures
        ({
            let chain = pdu_chain_nz(buffer@, FIRST_PDU_OFFSET as int, buffer@.len() as int);
            &&& chain.len() == 0 ==> r is None
            &&& chain.len() > 0 ==> r == Some(chain.last() as usize)
        }),
{
    let mut it = EtherCatPduOffsets::new_for_ethercat_frame(buffer, buffer.len());
    let ghost chain = pdu_chain_nz(buffer@, FIRST_PDU_OFFSET as int, buffer@.len() as int);
    let ghost mut seen: Seq<int> = Seq::empty();
    let mut last: Option<usize> = None;
    loop
        invariant
            it.wf(),
            it.buffer_view() == buffer@,
            chain == seen + it.remaining(),
            seen.len() == 0 ==> last is None,
            seen.len() > 0 ==> last == Some(seen.last() as usize),
        ensures
            chain == seen,
            seen.len() == 0 ==> last is None,
            seen.len() > 0 ==> last == Some(seen.last() as usize),
        decreases it.remaining().len(),
    {
        let ghost before = it.remaining();
        match it.next() {
            Some(o) => {
                proof {
                    seen = seen.push(before[0]);
                    assert(chain =~= seen + it.remaining());
                }
                last = Some(o);
            },
            None => {
                proof {
                    assert(chain =~= seen);
                }
                break ;
            },
        }
    }
    last
}

/// Writes a new datagram at `fo`: its header, its payload and a zero
/// working counter.
fn write_new_pdu(
    buf: &mut Vec<u8>,
    fo: usize,
    command: CommandType,
    adp: u16,
    ado: u16,
    idx: u8,
    data: &[u8],
)
    requires
        fo + data@.len() + PDU_HEADER_SIZE + WKC_LENGTH <= old(buf).len(),
    ensures
        ({
            let n = data@.len() as int;
            let s2 = put_pdu_header(old(buf)@, fo as int, command_type_code(command), adp as int, ado as int, idx as int, n);
            let s3 = put_bytes(s2, fo + PDU_HEADER_SIZE, data@);
            final(buf)@ == s3.update(fo + PDU_HEADER_SIZE + n, 0u8).update(fo + PDU_HEADER_SIZE + n + 1, 0u8)
        }),
{
    let data_len = data.len();
    set_pdu_command_type_at(buf, fo, command.to_u8());
    set_pdu_adp_at(buf, fo, adp);
    set_pdu_ado_at(buf, fo, ado);
    set_pdu_index_at(buf, fo, idx);
    set_pdu_is_circulated_at(buf, fo, false);
    set_pdu_has_next_at(buf, fo, false);
    set_pdu_irq_at(buf, fo, 0);
    assert(data_len as u16 == data_len % 65536) by (bit_vector);
    proof {
        lemma_u16_cast_field(data_len as int);
    }
    set_pdu_length_at(buf, fo, data_len as u16);
    copy_into(buf, fo + PDU_HEADER_SIZE, data);
    buf[fo + PDU_HEADER_SIZE + data_len] = 0;
    buf[fo + PDU_HEADER_SIZE + data_len + 1] = 0;
}

/// Truncating a length to 16 bits keeps the bits of the 11-bit length field.
proof fn lemma_u16_cast_field(v: int)
    requires
        0 <= v,
    ensures
        (v % 65536) % 256 == v % 256,
        ((v % 65536) / 256) % 8 == (v / 256) % 8,
{
    let q = v / 65536;
    let r = v % 65536;
    assert(v == 65536 * q + r) by (nonlinear_arith)
        requires
            q == v / 65536,
            r == v % 65536,
    ;
    assert((65536 * q + r) % 256 == r % 256) by (nonlinear_arith)
        requires
            0 <= r < 65536,
            q >= 0,
    ;
    assert(((65536 * q + r) / 256) % 8 == (r / 256) % 8) by (nonlinear_arith)
        requires
            0 <= r < 65536,
            q >= 0,
    ;
}

/// A frame over its buffer, as used by the command interface.
#[derive(Debug)]
pub struct EtherCatFrame {
    pub buffer: Vec<u8>,
    pub free_offset: usize,
    pub index: u8,
}

impl EtherCatFrame {
    /// Takes a frame; `None` if the buffer cannot hold both headers.
    pub fn new(buffer: Vec<u8>) -> (r: Option<Self>)
        ensures
            buffer@.len() < FIRST_PDU_OFFSET <==> r is None,
            r matches Some(f) ==> f.buffer@ == buffer@ && f.index == 0 && f.free_offset
                == FIRST_PDU_OFFSET + ec_length(buffer@, ETHERNET_HEADER_SIZE as int),
    {
        if buffer.len() < FIRST_PDU_OFFSET {
            return None;
        }
        let length = ec_length_at(buffer.as_slice(), ETHERNET_HEADER_SIZE);
        Some(EtherCatFrame { buffer, free_offset: FIRST_PDU_OFFSET + length as usize, index: 0 })
    }

    pub fn new_unchecked(buffer: Vec<u8>) -> (r: Self)
        requires
            FIRST_PDU_OFFSET <= buffer@.len(),
        ensures
            r.buffer@ == buffer@,
            r.index == 0,
            r.free_offset == FIRST_PDU_OFFSET + ec_length(buffer@, ETHERNET_HEADER_SIZE as int),
    {
        let length = ec_length_at(buffer.as_slice(), ETHERNET_HEADER_SIZE);
        EtherCatFrame { buffer, free_offset: FIRST_PDU_OFFSET + length as usize, index: 0 }
    }

    /// The bytes of the frame so far.
    pub fn packet(&self) -> (r: &[u8])
        requires
            self.free_offset <= self.buffer@.len(),
        ensures
            r@ == self.buffer@.subrange(0, self.free_offset as int),
    {
        slice_subrange(self.buffer.as_slice(), 0, self.free_offset)
    }

    /// Offsets of the datagrams, walking the whole buffer.
    pub fn iter_dlpdu_offsets(&self) -> (r: EtherCatPduOffsets)
        requires
            fits_buffer(self.buffer@.len() as int),
        ensures
            r.wf(),
            r.buffer_view() == self.buffer@,
            r.remaining() == pdu_chain_nz(self.buffer@, FIRST_PDU_OFFSET as int, self.buffer@.len() as int),
    {
        EtherCatPduOffsets::new_for_ethercat_frame(self.buffer.as_slice(), self.buffer.len())
    }

    /// The datagrams, walking the whole buffer.
    pub fn iter_dlpdu(&self) -> (r: EtherCatPdus)
        requires
            fits_buffer(self.buffer@.len() as int),
            pdus_fit(self.buffer@, FIRST_PDU_OFFSET as int, self.buffer@.len() as int),
        ensures
            r.wf(),
            r.buffer_view() == self.buffer@,
            r.remaining() == pdu_chain_nz(self.buffer@, FIRST_PDU_OFFSET as int, self.buffer@.len() as int),
    {
        EtherCatPdus::new_for_ethercat_frame(self.buffer.as_slice(), self.buffer.len())
    }

    /// Clears the buffer and writes the headers of an empty frame.
    pub fn init(&mut self)
        requires
            FIRST_PDU_OFFSET <= old(self).buffer@.len(),
        ensures
            final(self).buffer@ == crate::ethercat_frame::init_spec(old(self).buffer@.len()),
            final(self).free_offset == FIRST_PDU_OFFSET,
            final(self).index == 0,
    {
        let n = self.buffer.len();
        clear_range(&mut self.buffer, 0, n);
        proof {
            assert(self.buffer@ =~= Seq::new(n as nat, |i: int| 0u8));
        }
        set_ethercat_default_at(&mut self.buffer);
        set_ec_length_at(&mut self.buffer, ETHERNET_HEADER_SIZE, 0);
        set_ec_type_at(&mut self.buffer, ETHERNET_HEADER_SIZE, 1);
        self.free_offset = FIRST_PDU_OFFSET;
        self.index = 0;
    }

    /// The bytes of the frame so far, for writing.
    pub fn packet_mut(&mut self) -> (r: &mut [u8])
        requires
            old(self).free_offset <= old(self).buffer@.len(),
        ensures
            r@ == old(self).buffer@.subrange(0, old(self).free_offset as int),
    {
        let fo = self.free_offset;
        let s = self.buffer.as_mut_slice();
        let (head, _tail) = s.split_at_mut(fo);
        head
    }

    /// Appends a datagram with the given index (the frame's own if `None`),
    /// links it from the last datagram found, and updates the EtherCAT
    /// header; `false` if the buffer has no room.
    #[verifier::rlimit(50)]
    pub fn add_command(
        &mut self,
        command: CommandType,
        adp: u16,
        ado: u16,
        data: &[u8],
        index: Option<u8>,
    ) -> (r: bool)
        requires
            FIRST_PDU_OFFSET <= old(self).buffer@.len(),
            old(self).free_offset <= old(self).buffer@.len(),
            fits_buffer(old(self).buffer@.len() as int),
            fits_buffer(data@.len() as int),
        ensures
            ({
                let idx = match index {
                    Some(i) => i,
                    None => old(self).index,
                };
                let (res, s, fo) = ec_add_command_spec(
                    old(self).buffer@,
                    old(self).free_offset as int,
                    idx,
                    command_type_code(command),
                    adp as int,
                    ado as int,
                    data@,
                );
                &&& r == res
                &&& final(self).buffer@ == s
                &&& final(self).free_offset == fo
                &&& final(self).index == old(self).index
            }),
    {
        let data_len = data.len();
        let dlpdu_len = data_len + PDU_HEADER_SIZE + WKC_LENGTH;
        if dlpdu_len > self.buffer.len() - self.free_offset {
            return false;
        }
        let fo = self.free_offset;
        let pre = last_pdu_offset_nz(self.buffer.as_slice());
        let ghost chain = pdu_chain_nz(self.buffer@, FIRST_PDU_OFFSET as int, self.buffer@.len() as int);
        if let Some(pre_dlpdu_offset) = pre {
            proof {
                lemma_chain_nz_elements(self.buffer@, FIRST_PDU_OFFSET as int, self.buffer@.len() as int);
                assert(chain.last() == chain[chain.len() - 1]);
            }
            // The walk only yields datagrams whose header lies in the buffer.
            set_pdu_has_next_at(&mut self.buffer, pre_dlpdu_offset, true);
        }
        let idx = match index {
            Some(i) => i,
            None => self.index,
        };
        write_new_pdu(&mut self.buffer, fo, command, adp, ado, idx, data);
        let ec_frame_len = ec_length_at(self.buffer.as_slice(), ETHERNET_HEADER_SIZE);
        let datagrams_length = ec_frame_len as usize + dlpdu_len;
        assert(datagrams_length as u16 == datagrams_length % 65536) by (bit_vector);
        set_ec_length_at(&mut self.buffer, ETHERNET_HEADER_SIZE, datagrams_length as u16);
        self.free_offset = fo + dlpdu_len;
        true
    }
}

/// Adding a datagram keeps the buffer's length.
pub proof fn lemma_ec_add_keeps_len(
    s: Seq<u8>,
    fo: int,
    index: u8,
    cmd: int,
    adp: int,
    ado: int,
    data: Seq<u8>,
)
    requires
        FIRST_PDU_OFFSET <= s.len(),
        0 <= fo <= s.len(),
    ensures
        ec_add_command_spec(s, fo, index, cmd, adp, ado, data).1.len() == s.len(),
{
    let n = data.len() as int;
    let dlpdu_len = n + PDU_HEADER_SIZE + WKC_LENGTH;
    if dlpdu_len <= s.len() - fo {
        let chain = pdu_chain_nz(s, FIRST_PDU_OFFSET as int, s.len() as int);
        lemma_chain_nz_elements(s, FIRST_PDU_OFFSET as int, s.len() as int);
        if chain.len() > 0 {
            assert(chain.last() == chain[chain.len() - 1]);
        }
        let s1 = if chain.len() > 0 {
            put_pdu_has_next(s, chain.last(), true)
        } else {
            s
        };
        let s2 = put_pdu_header(s1, fo, cmd, adp, ado, index as int, n);
        let s3 = put_bytes(s2, fo + PDU_HEADER_SIZE, data);
        assert(s3.len() == s.len());
    }
}

} // verus!
