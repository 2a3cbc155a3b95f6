//! The command interface: a queue of datagrams that is sent as one frame and
//! filled back with the datagrams that come back.
use crate::bytes::{copy_into, fits_buffer, put_bytes};
use crate::command::Command;
use crate::bytes::read_le16;
use crate::frame::{eth_ether_type, eth_source, EthernetFrame, ETHERCAT_TYPE, ETHERNET_HEADER_SIZE, SRC_MAC};
use crate::ec_frame::{
    ec_add_command_spec, lemma_chain_nz_elements, pdu_chain_nz, pdus_fit, EtherCatFrame,
    EtherCatPduOffsets, EtherCatPdus,
};
use crate::ethercat_frame::{
    chain_reaches, init_spec, lemma_chain_append, FIRST_PDU_OFFSET, lemma_chain_fits, lemma_chain_reaches_ordered,
    lemma_chain_same_lengths, lemma_pdu_size_positive, pdu_chain,
};
use crate::frame::{
    command_type_code, command_type_spec, pdu_ado, pdu_adp, pdu_command_type, pdu_index,
    pdu_length, pdu_length_at, pdu_size, CommandType, MAX_ETHERCAT_DATAGRAM, MAX_PDU_DATAGRAM,
    PDU_HEADER_SIZE, WKC_LENGTH,
};
use vstd::prelude::*;
use vstd::slice::{slice_subrange, slice_to_vec};

verus! {

/// The ten header bytes of a queued datagram: command, index, adp, ado and
/// length; the flags and irq are zero.
pub open spec fn queued_header(cmd: int, index: int, adp: int, ado: int, n: int) -> Seq<u8> {
    seq![
        cmd as u8,
        index as u8,
        (adp % 256) as u8,
        (adp / 256) as u8,
        (ado % 256) as u8,
        (ado / 256) as u8,
        (n % 256) as u8,
        ((n / 256) % 8) as u8,
        0u8,
        0u8,
    ]
}

/// The queue after a datagram is appended at `total`: its header, its
/// payload, and zeros written one and two bytes after the payload.
pub open spec fn queue_push_spec(
    s: Seq<u8>,
    total: int,
    cmd: int,
    index: int,
    adp: int,
    ado: int,
    data: Seq<u8>,
) -> Seq<u8> {
    let n = data.len() as int;
    let s1 = put_bytes(s, total, queued_header(cmd, index, adp, ado, n));
    let s2 = put_bytes(s1, total + PDU_HEADER_SIZE, data);
    s2.update(total + PDU_HEADER_SIZE + n + 1, 0u8).update(total + PDU_HEADER_SIZE + n + 2, 0u8)
}

/// A queue of datagrams, laid end to end in a buffer.
#[derive(Debug)]
pub struct CommandInterface {
    buffer: Vec<u8>,
    pdus_total_size: usize,
    pdu_count: usize,
    tx_count: usize,
    capacity: usize,
}

impl CommandInterface {
    pub closed spec fn buffer_view(&self) -> Seq<u8> {
        self.buffer@
    }

    pub closed spec fn total(&self) -> int {
        self.pdus_total_size as int
    }

    pub closed spec fn capacity_view(&self) -> int {
        self.capacity as int
    }

    pub closed spec fn pdu_count_view(&self) -> int {
        self.pdu_count as int
    }

    pub closed spec fn tx_count_view(&self) -> int {
        self.tx_count as int
    }

    /// The queued datagrams exactly fill the first `total` bytes, which lie
    /// within the capacity.
    pub closed spec fn wf(&self) -> bool {
        &&& self.capacity <= self.buffer@.len()
        &&& self.capacity <= MAX_ETHERCAT_DATAGRAM
        &&& self.pdus_total_size <= self.capacity
        &&& self.pdu_count <= self.pdus_total_size
        &&& fits_buffer(self.buffer@.len() as int)
    }

    /// The queued datagrams are laid end to end and exactly fill the first
    /// `total` bytes.
    pub closed spec fn queue_ok(&self) -> bool {
        chain_reaches(self.buffer@, 0, self.pdus_total_size as int)
    }

    /// Walking the first `total` bytes finds datagrams inside the buffer only.
    pub closed spec fn consumable(&self) -> bool {
        pdus_fit(self.buffer@, 0, self.pdus_total_size as int)
    }

    /// The queue over `buffer`, with room for at most one frame's datagrams.
    pub fn new(buffer: Vec<u8>) -> (r: Self)
        requires
            fits_buffer(buffer@.len() as int),
        ensures
            r.wf(),
            r.queue_ok(),
            r.buffer_view() == buffer@,
            r.total() == 0,
            r.pdu_count_view() == 0,
            r.tx_count_view() == 0,
            r.capacity_view() == if buffer@.len() < MAX_ETHERCAT_DATAGRAM {
                buffer@.len() as int
            } else {
                MAX_ETHERCAT_DATAGRAM as int
            },
    {
        let capacity = if buffer.len() < MAX_ETHERCAT_DATAGRAM {
            buffer.len()
        } else {
            MAX_ETHERCAT_DATAGRAM
        };
        CommandInterface { buffer, pdus_total_size: 0, pdu_count: 0, tx_count: 0, capacity }
    }

    /// Payload size that one more datagram can have.
    pub fn remainig_pdu_data_capacity(&self) -> (r: usize)
        requires
            self.total() + PDU_HEADER_SIZE + WKC_LENGTH <= self.capacity_view(),
        ensures
            r == self.capacity_view() - self.total() - PDU_HEADER_SIZE - WKC_LENGTH,
    {
        self.capacity - self.pdus_total_size - PDU_HEADER_SIZE - WKC_LENGTH
    }

    /// Adding a datagram of `n` payload bytes stays inside the buffer: it is
    /// refused, or its trailing zeros land before the buffer's end.
    pub open spec fn add_in_bounds(&self, n: int) -> bool {
        ||| self.total() + PDU_HEADER_SIZE + n + WKC_LENGTH > self.capacity_view()
        ||| n > MAX_PDU_DATAGRAM
        ||| self.total() + PDU_HEADER_SIZE + n + WKC_LENGTH < self.buffer_view().len()
    }

    pub fn add_in_bounds_exec(&self, n: usize) -> (r: bool)
        requires
            self.wf(),
            fits_buffer(n as int),
        ensures
            r == self.add_in_bounds(n as int),
    {
        self.pdus_total_size + PDU_HEADER_SIZE + n + WKC_LENGTH > self.capacity || n > MAX_PDU_DATAGRAM
            || self.pdus_total_size + PDU_HEADER_SIZE + n + WKC_LENGTH < self.buffer.len()
    }

    /// Queues a datagram with the given index, command and payload; gives the
    /// command back if it does not fit.
    pub fn add_command(&mut self, pdu_index: u8, command: Command, data: &[u8]) -> (r: Result<
        (),
        Command,
    >)
        requires
            old(self).wf(),
            old(self).queue_ok(),
            fits_buffer(data@.len() as int),
            old(self).add_in_bounds(data@.len() as int),
        ensures
            final(self).wf(),
            final(self).queue_ok(),
            final(self).capacity_view() == old(self).capacity_view(),
            final(self).tx_count_view() == old(self).tx_count_view(),
            r is Ok ==> final(self).pdu_count_view() == old(self).pdu_count_view() + 1,
            r is Err ==> final(self).pdu_count_view() == old(self).pdu_count_view(),
            old(self).total() + PDU_HEADER_SIZE + data@.len() + WKC_LENGTH > old(self).capacity_view()
                || data@.len() > MAX_PDU_DATAGRAM ==> r == Err::<(), Command>(command) && final(self).buffer_view()
                == old(self).buffer_view() && final(self).total() == old(self).total(),
            !(old(self).total() + PDU_HEADER_SIZE + data@.len() + WKC_LENGTH > old(self).capacity_view()
                || data@.len() > MAX_PDU_DATAGRAM) ==> r is Ok && final(self).buffer_view() == queue_push_spec(
                old(self).buffer_view(),
                old(self).total(),
                command_type_code(command.c_type),
                pdu_index as int,
                command.adp as int,
                command.ado as int,
                data@,
            ) && final(self).total() == old(self).total() + PDU_HEADER_SIZE + data@.len() + WKC_LENGTH,
    {
        let data_size = data.len();
        if self.pdus_total_size + PDU_HEADER_SIZE + data_size + WKC_LENGTH > self.capacity {
            return Err(command);
        }
        if data_size > MAX_PDU_DATAGRAM {
            return Err(command);
        }
        let total = self.pdus_total_size;
        let ghost s0 = self.buffer@;
        let header = make_queued_header(pdu_index, command, data_size);
        copy_into(&mut self.buffer, total, header.as_slice());
        copy_into(&mut self.buffer, total + PDU_HEADER_SIZE, data);
        self.buffer[total + PDU_HEADER_SIZE + data_size + 1] = 0;
        self.buffer[total + PDU_HEADER_SIZE + data_size + 2] = 0;
        self.pdus_total_size = total + PDU_HEADER_SIZE + data_size + WKC_LENGTH;
        self.pdu_count = self.pdu_count + 1;
        proof {
            let s1 = self.buffer@;
            let n = data_size as int;
            assert forall|k: int| 0 <= k < total implies #[trigger] s1[k] == s0[k] by {}
            lemma_chain_fits(s0, 0, total as int);
            crate::ethercat_frame::lemma_chain_elements(s0, 0, total as int);
            let c = pdu_chain(s0, 0, total as int);
            assert forall|i: int| 0 <= i < c.len() implies pdu_length(s1, #[trigger] c[i]) == pdu_length(s0, c[i]) by {
                lemma_pdu_size_positive(s0, c[i]);
                assert(s1[c[i] + 6] == s0[c[i] + 6]);
                assert(s1[c[i] + 7] == s0[c[i] + 7]);
            }
            lemma_chain_same_lengths(s0, s1, 0, total as int);
            assert(pdu_length(s1, total as int) == n) by {
                assert(s1[total + 6] == (n % 256) as u8);
                assert(s1[total + 7] == ((n / 256) % 8) as u8);
                let h = ((n / 256) % 8) as u8;
                assert(h % 8 == h) by (bit_vector)
                    requires
                        h < 8,
                ;
            }
            lemma_pdu_size_positive(s1, total as int);
            assert(chain_reaches(s1, total as int + pdu_size(s1, total as int), self.pdus_total_size as int));
            assert(chain_reaches(s1, total as int, self.pdus_total_size as int));
            lemma_chain_append(s1, 0, total as int, self.pdus_total_size as int);
        }
        Ok(())
    }

    /// Hands out the queued datagrams and empties the queue.
    pub fn consume_commands(&mut self) -> (r: EtherCatPdus)
        requires
            old(self).wf(),
            old(self).consumable(),
        ensures
            final(self).wf(),
            final(self).queue_ok(),
            final(self).buffer_view() == old(self).buffer_view(),
            final(self).total() == 0,
            final(self).pdu_count_view() == 0,
            final(self).tx_count_view() == old(self).tx_count_view(),
            final(self).capacity_view() == old(self).capacity_view(),
            r.wf(),
            r.buffer_view() == old(self).buffer_view(),
            r.remaining() == pdu_chain_nz(old(self).buffer_view(), 0, old(self).total()),
            pdus_fit(old(self).buffer_view(), 0, old(self).total()),
    {
        let total = self.pdus_total_size;
        self.pdus_total_size = 0;
        self.pdu_count = 0;
        EtherCatPdus::new(self.buffer.as_slice(), total, 0)
    }
}

/// The frame `(s, fo)` after the datagrams of `src` at the offsets `chain`
/// are added to it one by one, each with its own index.
pub open spec fn copy_pdus_spec(s: Seq<u8>, fo: int, src: Seq<u8>, chain: Seq<int>) -> (Seq<u8>, int)
    decreases chain.len(),
{
    if chain.len() == 0 {
        (s, fo)
    } else {
        let o = chain[0];
        let (ok, s1, fo1) = ec_add_command_spec(
            s,
            fo,
            pdu_index(src, o) as u8,
            command_type_code(command_type_spec(pdu_command_type(src, o))),
            pdu_adp(src, o),
            pdu_ado(src, o),
            src.subrange(o + PDU_HEADER_SIZE, o + PDU_HEADER_SIZE + pdu_length(src, o)),
        );
        copy_pdus_spec(s1, fo1, src, chain.drop_first())
    }
}

impl CommandInterface {
    /// Builds the frame to send: an empty frame over `tx_buffer` (sized for
    /// the headers and all queued datagrams) with each queued datagram added
    /// under its own index. Counts the datagrams sent.
    #[verifier::rlimit(100)]
    pub fn fill_tx_frame(&mut self, tx_buffer: Vec<u8>) -> (r: Vec<u8>)
        requires
            old(self).wf(),
            old(self).queue_ok(),
            tx_buffer@.len() == FIRST_PDU_OFFSET + old(self).total(),
            fits_buffer(old(self).tx_count_view()),
        ensures
            final(self).wf(),
            final(self).queue_ok(),
            final(self).buffer_view() == old(self).buffer_view(),
            final(self).total() == old(self).total(),
            final(self).pdu_count_view() == old(self).pdu_count_view(),
            final(self).capacity_view() == old(self).capacity_view(),
            final(self).tx_count_view() == old(self).tx_count_view() + pdu_chain_nz(
                old(self).buffer_view(),
                0,
                old(self).total(),
            ).len(),
            r@ == copy_pdus_spec(
                init_spec(tx_buffer@.len()),
                FIRST_PDU_OFFSET as int,
                old(self).buffer_view(),
                pdu_chain_nz(old(self).buffer_view(), 0, old(self).total()),
            ).0,
    {
        let total = self.pdus_total_size;
        let mut frame = EtherCatFrame::new_unchecked(tx_buffer);
        frame.init();
        proof {
            lemma_reaches_implies_fit(self.buffer@, 0, total as int);
        }
        let ghost src = self.buffer@;
        let ghost full = pdu_chain_nz(src, 0, total as int);
        let mut pdus = EtherCatPdus::new(self.buffer.as_slice(), total, 0);
        let mut count: usize = 0;
        let ghost mut cur: int = 0;
        loop
            invariant
                pdus.wf(),
                pdus.buffer_view() == src,
                pdus.remaining() == pdu_chain_nz(src, cur, total as int),
                chain_reaches(src, cur, total as int),
                0 <= cur <= total,
                count <= cur,
                total <= src.len(),
                total <= MAX_ETHERCAT_DATAGRAM,
                fits_buffer(src.len() as int),
                frame.buffer@.len() == FIRST_PDU_OFFSET + total,
                frame.free_offset == FIRST_PDU_OFFSET + cur,
                count + pdus.remaining().len() == full.len(),
                copy_pdus_spec(init_spec((FIRST_PDU_OFFSET + total) as nat), FIRST_PDU_OFFSET as int, src, full)
                    == copy_pdus_spec(frame.buffer@, frame.free_offset as int, src, pdus.remaining()),
            ensures
                count == full.len(),
                copy_pdus_spec(init_spec((FIRST_PDU_OFFSET + total) as nat), FIRST_PDU_OFFSET as int, src, full).0
                    == frame.buffer@,
            decreases pdus.remaining().len(),
        {
            let ghost before = pdus.remaining();
            match pdus.next() {
                Some(p) => {
                    proof {
                        assert(before[0] == cur);
                        lemma_pdu_size_positive(src, cur);
                        lemma_chain_reaches_ordered(src, cur + pdu_size(src, cur), total as int);
                        assert(cur + pdu_size(src, cur) <= total);
                    }
                    let index = p[1];
                    let command = CommandType::new(p[0]);
                    let adp = read_le16(p, 2);
                    let ado = read_le16(p, 4);
                    let len = pdu_length_at(p, 0) as usize;
                    let data = slice_subrange(p, PDU_HEADER_SIZE, PDU_HEADER_SIZE + len);
                    proof {
                        assert(data@ =~= src.subrange(cur + PDU_HEADER_SIZE, cur + PDU_HEADER_SIZE + pdu_length(src, cur)));
                    }
                    let ghost fs = frame.buffer@;
                    let ghost ffo = frame.free_offset as int;
                    let ok = frame.add_command(command, adp, ado, data, Some(index));
                    proof {
                        crate::ec_frame::lemma_ec_add_keeps_len(
                            fs,
                            ffo,
                            index,
                            command_type_code(command),
                            adp as int,
                            ado as int,
                            data@,
                        );
                        cur = cur + pdu_size(src, cur);
                    }
                    count = count + 1;
                },
                None => {
                    break ;
                },
            }
        }
        self.tx_count = self.tx_count + count;
        frame.buffer
    }
}

/// The bytes of the datagrams at the offsets `chain`, one after another.
pub open spec fn concat_pdus(s: Seq<u8>, chain: Seq<int>) -> Seq<u8>
    decreases chain.len(),
{
    if chain.len() == 0 {
        Seq::empty()
    } else {
        s.subrange(chain[0], chain[0] + pdu_size(s, chain[0])) + concat_pdus(s, chain.drop_first())
    }
}

/// A received frame that answers the master: it was not sent by the master
/// itself and carries the EtherCAT ether type.
pub open spec fn is_reply(frame: Seq<u8>) -> bool {
    eth_source(frame) != SRC_MAC && eth_ether_type(frame) == ETHERCAT_TYPE
}

/// The datagrams of a received frame: walking from the first datagram to the
/// end of the frame.
pub open spec fn reply_pdus(frame: Seq<u8>) -> Seq<int> {
    pdu_chain_nz(frame, FIRST_PDU_OFFSET as int, frame.len() as int)
}

impl CommandInterface {
    /// Whether the datagrams of a reply can be copied into the queue at
    /// `data_size`: the reply holds its headers, each of its datagrams lies
    /// inside it, and together they fit in the buffer.
    pub open spec fn reply_fits(&self, frame: Seq<u8>, data_size: int) -> bool {
        is_reply(frame) ==> {
            &&& FIRST_PDU_OFFSET <= frame.len()
            &&& pdus_fit(frame, FIRST_PDU_OFFSET as int, frame.len() as int)
            &&& data_size + concat_pdus(frame, reply_pdus(frame)).len() <= self.buffer_view().len()
        }
    }

    /// Copies the datagrams of a received frame into the queue's buffer at
    /// `data_size`, and gives the new data size; frames that are not replies
    /// are skipped.
    pub fn receive_frame(&mut self, frame: &[u8], data_size: usize) -> (r: usize)
        requires
            old(self).wf(),
            ETHERNET_HEADER_SIZE <= frame@.len(),
            fits_buffer(frame@.len() as int),
            data_size <= old(self).buffer_view().len(),
            old(self).reply_fits(frame@, data_size as int),
        ensures
            final(self).wf(),
            final(self).total() == old(self).total(),
            final(self).pdu_count_view() == old(self).pdu_count_view(),
            final(self).tx_count_view() == old(self).tx_count_view(),
            final(self).capacity_view() == old(self).capacity_view(),
            !is_reply(frame@) ==> r == data_size && final(self).buffer_view() == old(self).buffer_view(),
            is_reply(frame@) ==> {
                let bytes = concat_pdus(frame@, reply_pdus(frame@));
                &&& r == data_size + bytes.len()
                &&& final(self).buffer_view() == put_bytes(old(self).buffer_view(), data_size as int, bytes)
            },
    {
        let eth = EthernetFrame(slice_to_vec(slice_subrange(frame, 0, ETHERNET_HEADER_SIZE)));
        proof {
            assert(eth.0@ =~= frame@.subrange(0, 14));
        }
        if eth.source() == SRC_MAC || eth.ether_type() != ETHERCAT_TYPE {
            return data_size;
        }
        let ghost b0 = self.buffer@;
        let ghost chain = reply_pdus(frame@);
        let mut pdus = EtherCatPdus::new_for_ethercat_frame(frame, frame.len());
        let mut size = data_size;
        let ghost mut done: Seq<int> = Seq::empty();
        loop
            invariant
                pdus.wf(),
                pdus.buffer_view() == frame@,
                chain == done + pdus.remaining(),
                self.wf(),
                self.pdus_total_size == old(self).pdus_total_size,
                self.pdu_count == old(self).pdu_count,
                self.tx_count == old(self).tx_count,
                self.capacity == old(self).capacity,
                size == data_size + concat_pdus(frame@, done).len(),
                data_size + concat_pdus(frame@, chain).len() <= b0.len(),
                self.buffer@ == put_bytes(b0, data_size as int, concat_pdus(frame@, done)),
                concat_pdus(frame@, chain) == concat_pdus(frame@, done) + concat_pdus(frame@, pdus.remaining()),
            ensures
                size == data_size + concat_pdus(frame@, chain).len(),
                self.buffer@ == put_bytes(b0, data_size as int, concat_pdus(frame@, chain)),
            decreases pdus.remaining().len(),
        {
            let ghost before = pdus.remaining();
            match pdus.next() {
                Some(p) => {
                    let ghost prev = self.buffer@;
                    proof {
                        assert(concat_pdus(frame@, before) == p@ + concat_pdus(frame@, before.drop_first()));
                    }
                    copy_into(&mut self.buffer, size, p);
                    proof {
                        lemma_concat_push(frame@, done, before[0]);
                        lemma_put_bytes_twice(b0, data_size as int, concat_pdus(frame@, done), p@);
                        done = done.push(before[0]);
                        assert(chain =~= done + pdus.remaining());
                        assert(concat_pdus(frame@, chain) =~= concat_pdus(frame@, done) + concat_pdus(frame@, pdus.remaining()));
                    }
                    size = size + p.len();
                },
                None => {
                    proof {
                        assert(chain =~= done);
                    }
                    break ;
                },
            }
        }
        size
    }
}

impl CommandInterface {
    /// What a well-formed queue keeps within bounds.
    pub proof fn lemma_wf_bounds(&self)
        requires
            self.wf(),
        ensures
            0 <= self.total() <= self.capacity_view() <= MAX_ETHERCAT_DATAGRAM,
            self.capacity_view() <= self.buffer_view().len(),
            fits_buffer(self.buffer_view().len() as int),
    {
    }

    /// A consumable queue has each of its datagrams inside the buffer.
    pub proof fn lemma_consumable_fit(&self)
        requires
            self.consumable(),
        ensures
            pdus_fit(self.buffer_view(), 0, self.total()),
    {
    }

    pub fn pdus_total_size(&self) -> (r: usize)
        ensures
            r == self.total(),
    {
        self.pdus_total_size
    }

    pub fn tx_count(&self) -> (r: usize)
        ensures
            r == self.tx_count_view(),
    {
        self.tx_count
    }

    pub fn pdu_count(&self) -> (r: usize)
        ensures
            r == self.pdu_count_view(),
    {
        self.pdu_count
    }

    pub fn capacity(&self) -> (r: usize)
        ensures
            r == self.capacity_view(),
    {
        self.capacity
    }

    /// The queue's buffer.
    pub fn buffer(&self) -> (r: &[u8])
        ensures
            r@ == self.buffer_view(),
    {
        self.buffer.as_slice()
    }

    /// Size of the frame that carries all queued datagrams.
    pub fn tx_frame_len(&self) -> (r: usize)
        requires
            self.wf(),
        ensures
            r == FIRST_PDU_OFFSET + self.total(),
    {
        FIRST_PDU_OFFSET + self.pdus_total_size
    }

    /// Whether sending is over: no datagram counted as queued, or as many sent
    /// as queued.
    pub fn nothing_to_transmit(&self) -> (r: bool)
        ensures
            r == (self.pdu_count_view() == 0),
    {
        self.pdu_count == 0
    }

    pub fn all_transmitted(&self) -> (r: bool)
        ensures
            r == !(self.tx_count_view() < self.pdu_count_view()),
    {
        !(self.tx_count < self.pdu_count)
    }

    /// Checks `queue_ok`.
    pub fn queue_ok_exec(&self) -> (r: bool)
        requires
            self.wf(),
        ensures
            r == self.queue_ok(),
    {
        chain_reaches_exec(self.buffer.as_slice(), 0, self.pdus_total_size)
    }

    /// Checks `consumable`.
    pub fn consumable_exec(&self) -> (r: bool)
        requires
            self.wf(),
        ensures
            r == self.consumable(),
    {
        pdus_fit_exec(self.buffer.as_slice(), 0, self.pdus_total_size)
    }

    /// Checks `reply_fits`.
    pub fn reply_fits_exec(&self, frame: &[u8], data_size: usize) -> (r: bool)
        requires
            self.wf(),
            ETHERNET_HEADER_SIZE <= frame@.len(),
            fits_buffer(frame@.len() as int),
            data_size <= self.buffer_view().len(),
        ensures
            r == self.reply_fits(frame@, data_size as int),
    {
        let eth = EthernetFrame(slice_to_vec(slice_subrange(frame, 0, ETHERNET_HEADER_SIZE)));
        proof {
            assert(eth.0@ =~= frame@.subrange(0, 14));
        }
        if eth.source() == SRC_MAC || eth.ether_type() != ETHERCAT_TYPE {
            return true;
        }
        if frame.len() < FIRST_PDU_OFFSET {
            return false;
        }
        if !pdus_fit_exec(frame, FIRST_PDU_OFFSET, frame.len()) {
            return false;
        }
        let total = concat_len_exec(frame);
        total <= self.buffer.len() - data_size
    }
}

/// Checks `chain_reaches`.
pub fn chain_reaches_exec(s: &[u8], off: usize, end: usize) -> (r: bool)
    requires
        fits_buffer(s@.len() as int),
        end <= s@.len(),
    ensures
        r == chain_reaches(s@, off as int, end as int),
    decreases if off < end { end - off } else { 0 },
{
    if off == end {
        true
    } else if off < end && PDU_HEADER_SIZE <= s.len() && off <= s.len() - PDU_HEADER_SIZE {
        proof {
            lemma_pdu_size_positive(s@, off as int);
        }
        let next = off + PDU_HEADER_SIZE + pdu_length_at(s, off) as usize + WKC_LENGTH;
        chain_reaches_exec(s, next, end)
    } else {
        false
    }
}

/// Checks `pdus_fit`.
pub fn pdus_fit_exec(s: &[u8], off: usize, end: usize) -> (r: bool)
    requires
        fits_buffer(s@.len() as int),
    ensures
        r == pdus_fit(s@, off as int, end as int),
{
    let mut it = EtherCatPduOffsets::new(s, end, off);
    let ghost chain = pdu_chain_nz(s@, off as int, end as int);
    let ghost mut seen: Seq<int> = Seq::empty();
    proof {
        lemma_chain_nz_elements(s@, off as int, end as int);
    }
    loop
        invariant
            it.wf(),
            it.buffer_view() == s@,
            chain == pdu_chain_nz(s@, off as int, end as int),
            chain == seen + it.remaining(),
            fits_buffer(s@.len() as int),
            forall|i: int|
                0 <= i < chain.len() ==> {
                    let o = #[trigger] chain[i];
                    &&& 0 <= o
                    &&& o + PDU_HEADER_SIZE <= s@.len()
                    &&& o < end
                },
            forall|i: int| 0 <= i < seen.len() ==> #[trigger] seen[i] + pdu_size(s@, seen[i]) <= s@.len(),
        decreases it.remaining().len(),
    {
        let ghost before = it.remaining();
        match it.next() {
            Some(o) => {
                proof {
                    assert(chain[seen.len() as int] == before[0]);
                }
                let len = pdu_length_at(s, o) as usize;
                if o + PDU_HEADER_SIZE + len + WKC_LENGTH > s.len() {
                    return false;
                }
                proof {
                    seen = seen.push(before[0]);
                    assert(chain =~= seen + it.remaining());
                }
            },
            None => {
                proof {
                    assert(chain =~= seen);
                }
                return true;
            },
        }
    }
}

/// Total size of the datagrams of a received frame.
fn concat_len_exec(frame: &[u8]) -> (r: usize)
    requires
        FIRST_PDU_OFFSET <= frame@.len(),
        fits_buffer(frame@.len() as int),
        pdus_fit(frame@, FIRST_PDU_OFFSET as int, frame@.len() as int),
    ensures
        r == concat_pdus(frame@, reply_pdus(frame@)).len(),
{
    let mut pdus = EtherCatPdus::new_for_ethercat_frame(frame, frame.len());
    let ghost chain = reply_pdus(frame@);
    let ghost mut done: Seq<int> = Seq::empty();
    proof {
        lemma_concat_len_bound(frame@, FIRST_PDU_OFFSET as int, frame@.len() as int);
        assert(done + chain =~= chain);
    }
    let mut size: usize = 0;
    loop
        invariant
            pdus.wf(),
            pdus.buffer_view() == frame@,
            chain == done + pdus.remaining(),
            size == concat_pdus(frame@, done).len(),
            concat_pdus(frame@, chain) == concat_pdus(frame@, done) + concat_pdus(frame@, pdus.remaining()),
            concat_pdus(frame@, chain).len() <= frame@.len(),
            fits_buffer(frame@.len() as int),
        ensures
            size == concat_pdus(frame@, chain).len(),
        decreases pdus.remaining().len(),
    {
        let ghost before = pdus.remaining();
        match pdus.next() {
            Some(p) => {
                proof {
                    assert(concat_pdus(frame@, before) == p@ + concat_pdus(frame@, before.drop_first()));
                    lemma_concat_push(frame@, done, before[0]);
                    done = done.push(before[0]);
                    assert(chain =~= done + pdus.remaining());
                    assert(concat_pdus(frame@, chain) =~= concat_pdus(frame@, done) + concat_pdus(frame@, pdus.remaining()));
                    assert(concat_pdus(frame@, done).len() == size + p@.len());
                    assert(concat_pdus(frame@, done).len() <= concat_pdus(frame@, chain).len());
                }
                size = size + p.len();
            },
            None => {
                proof {
                    assert(chain =~= done);
                }
                break ;
            },
        }
    }
    size
}

/// The datagrams that a walk from `off` finds, laid end to end, are no longer
/// than what follows `off`.
pub proof fn lemma_concat_len_bound(s: Seq<u8>, off: int, end: int)
    requires
        0 <= off <= s.len(),
        pdus_fit(s, off, end),
    ensures
        concat_pdus(s, pdu_chain_nz(s, off, end)).len() + off <= s.len(),
    decreases if off < end { end - off } else { 0 },
{
    let c = pdu_chain_nz(s, off, end);
    if 0 <= off && off + PDU_HEADER_SIZE <= s.len() && pdu_length(s, off) != 0 && off < end {
        lemma_pdu_size_positive(s, off);
        let next = off + pdu_size(s, off);
        let t = pdu_chain_nz(s, next, end);
        assert(c[0] == off);
        assert(c.drop_first() =~= t);
        assert(next <= s.len());
        assert(pdus_fit(s, next, end)) by {
            assert forall|i: int| 0 <= i < t.len() implies #[trigger] t[i] + pdu_size(s, t[i]) <= s.len() by {
                assert(t[i] == c[i + 1]);
            }
        }
        lemma_concat_len_bound(s, next, end);
    } else {
        assert(c.len() == 0);
    }
}

/// A queue that is laid end to end can be consumed.
pub proof fn lemma_queue_ok_consumable(ci: &CommandInterface)
    requires
        ci.wf(),
        ci.queue_ok(),
    ensures
        ci.consumable(),
{
    lemma_reaches_implies_fit(ci.buffer@, 0, ci.pdus_total_size as int);
}

/// Appending a datagram to the offsets appends its bytes.
pub proof fn lemma_concat_push(s: Seq<u8>, chain: Seq<int>, o: int)
    ensures
        concat_pdus(s, chain.push(o)) == concat_pdus(s, chain) + s.subrange(o, o + pdu_size(s, o)),
    decreases chain.len(),
{
    if chain.len() == 0 {
        assert(chain.push(o).drop_first() =~= Seq::<int>::empty());
        assert(concat_pdus(s, Seq::<int>::empty()) == Seq::<u8>::empty());
        assert(chain.push(o)[0] == o);
        assert(concat_pdus(s, chain.push(o)) =~= concat_pdus(s, chain) + s.subrange(o, o + pdu_size(s, o)));
    } else {
        assert(chain.push(o).drop_first() =~= chain.drop_first().push(o));
        lemma_concat_push(s, chain.drop_first(), o);
        assert(concat_pdus(s, chain.push(o)) =~= concat_pdus(s, chain) + s.subrange(o, o + pdu_size(s, o)));
    }
}

/// Writing `a` at `o` and then `b` right after it writes `a + b` at `o`.
pub proof fn lemma_put_bytes_twice(s: Seq<u8>, o: int, a: Seq<u8>, b: Seq<u8>)
    requires
        0 <= o,
        o + a.len() + b.len() <= s.len(),
    ensures
        put_bytes(put_bytes(s, o, a), o + a.len(), b) == put_bytes(s, o, a + b),
{
    assert(put_bytes(put_bytes(s, o, a), o + a.len(), b) =~= put_bytes(s, o, a + b));
}

/// The header of a queued datagram.
fn make_queued_header(pdu_index: u8, command: Command, data_size: usize) -> (r: Vec<u8>)
    requires
        data_size <= MAX_PDU_DATAGRAM,
    ensures
        r@ == queued_header(
            command_type_code(command.c_type),
            pdu_index as int,
            command.adp as int,
            command.ado as int,
            data_size as int,
        ),
{
    let mut h: Vec<u8> = Vec::new();
    let adp = command.adp;
    let ado = command.ado;
    let n = data_size as u16;
    proof {
        crate::bytes::lemma_u16_bytes(adp);
        crate::bytes::lemma_u16_bytes(ado);
        crate::bytes::lemma_u16_bytes(n);
    }
    assert((n >> 8u16) & 7 == (n / 256) % 8) by (bit_vector);
    h.push(command.c_type.to_u8());
    h.push(pdu_index);
    h.push((adp & 0xff) as u8);
    h.push((adp >> 8u16) as u8);
    h.push((ado & 0xff) as u8);
    h.push((ado >> 8u16) as u8);
    h.push((n & 0xff) as u8);
    h.push(((n >> 8u16) & 7) as u8);
    h.push(0);
    h.push(0);
    proof {
        assert(h@ =~= queued_header(
            command_type_code(command.c_type),
            pdu_index as int,
            command.adp as int,
            command.ado as int,
            data_size as int,
        ));
    }
    h
}

/// A chain that reaches `end` inside the buffer has every datagram of the
/// empty-payload-stopping walk inside the buffer.
pub proof fn lemma_reaches_implies_fit(s: Seq<u8>, off: int, end: int)
    requires
        chain_reaches(s, off, end),
        end <= s.len(),
    ensures
        pdus_fit(s, off, end),
    decreases if off < end { end - off } else { 0 },
{
    if off != end {
        lemma_pdu_size_positive(s, off);
        let next = off + pdu_size(s, off);
        lemma_reaches_implies_fit(s, next, end);
        lemma_chain_reaches_ordered(s, next, end);
        let c = pdu_chain_nz(s, off, end);
        let t = pdu_chain_nz(s, next, end);
        if pdu_length(s, off) != 0 {
            assert forall|i: int| 0 <= i < c.len() implies #[trigger] c[i] + pdu_size(s, c[i]) <= s.len() by {
                if i > 0 {
                    assert(c[i] == t[i - 1]);
                }
            }
        }
    }
}

} // verus!
