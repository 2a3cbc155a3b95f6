//! Wire layouts of the Ethernet header, the EtherCAT header, the EtherCAT
//! datagram (PDU) header and the mailbox header, and the command and mailbox
//! type codes.
//!
//! Fields are read and written at an offset inside a byte buffer; every
//! accessor states the exact bytes it reads or the exact bytes it changes.
use crate::bytes::{
    be16, be48, fits_buffer, le16, put_be16, put_be48, put_le16, read_be16, read_be48, read_le16,
    write_be16, write_be48, write_le16,
};
use vstd::prelude::*;
use vstd::slice::slice_subrange;

verus! {

pub const DST_MAC: u64 = 0xFF_FF_FF_FF_FF_FF;

pub const SRC_MAC: u64 = 0x05_05_05_05_05_05;

pub const WKC_LENGTH: usize = 2;

pub const ETHERCAT_TYPE: u16 = 0x88A4;

pub const ETHERNET_HEADER_SIZE: usize = 14;

pub const ETHERCAT_HEADER_SIZE: usize = 2;

pub const PDU_HEADER_SIZE: usize = 10;

pub const MAILBOX_HEADER_SIZE: usize = 6;

pub const MAILBOX_ERROR_SIZE: usize = 4;

pub const ETHERNET_FRAME_SIZE_WITHOUT_FCS: usize = 1514;

/// Largest sum of datagram sizes that fits in one Ethernet frame.
pub const MAX_ETHERCAT_DATAGRAM: usize = 1498;

/// Largest datagram payload that fits in one Ethernet frame.
pub const MAX_PDU_DATAGRAM: usize = 1486;

// ---------------------------------------------------------------------------
// Ethernet header (bit order MSB0: multi-byte fields are big-endian)
// ---------------------------------------------------------------------------
pub open spec fn eth_destination(s: Seq<u8>) -> int {
    be48(s, 0)
}

pub open spec fn eth_source(s: Seq<u8>) -> int {
    be48(s, 6)
}

pub open spec fn eth_ether_type(s: Seq<u8>) -> int {
    be16(s, 12)
}

/// The header bytes that `set_ethercat_default` writes.
pub open spec fn eth_default(s: Seq<u8>) -> Seq<u8> {
    put_be16(put_be48(put_be48(s, 0, DST_MAC as int), 6, SRC_MAC as int), 12, ETHERCAT_TYPE as int)
}

/// Writes broadcast destination, the master's source address and the
/// EtherCAT ether type.
pub fn set_ethercat_default_at(buf: &mut Vec<u8>)
    requires
        ETHERNET_HEADER_SIZE <= old(buf).len(),
    ensures
        final(buf)@ == eth_default(old(buf)@),
{
    write_be48(buf, 0, DST_MAC);
    write_be48(buf, 6, SRC_MAC);
    write_be16(buf, 12, ETHERCAT_TYPE);
}

/// An Ethernet header over its buffer.
pub struct EthernetFrame(pub Vec<u8>);

impl EthernetFrame {
    pub const HEADER_SIZE: usize = 14;

    pub fn new() -> (r: Self)
        ensures
            r.0@ == Seq::new(14, |i: int| 0u8),
    {
        EthernetFrame(vec![0u8; 14])
    }

    pub fn destination(&self) -> (r: u64)
        requires
            14 <= self.0.len(),
        ensures
            r == eth_destination(self.0@),
    {
        read_be48(self.0.as_slice(), 0)
    }

    pub fn source(&self) -> (r: u64)
        requires
            14 <= self.0.len(),
        ensures
            r == eth_source(self.0@),
    {
        read_be48(self.0.as_slice(), 6)
    }

    pub fn ether_type(&self) -> (r: u16)
        requires
            14 <= self.0.len(),
        ensures
            r == eth_ether_type(self.0@),
    {
        read_be16(self.0.as_slice(), 12)
    }

    pub fn set_destination(&mut self, v: u64)
        requires
            14 <= old(self).0.len(),
        ensures
            final(self).0@ == put_be48(old(self).0@, 0, v as int),
    {
        write_be48(&mut self.0, 0, v);
    }

    pub fn set_source(&mut self, v: u64)
        requires
            14 <= old(self).0.len(),
        ensures
            final(self).0@ == put_be48(old(self).0@, 6, v as int),
    {
        write_be48(&mut self.0, 6, v);
    }

    pub fn set_ether_type(&mut self, v: u16)
        requires
            14 <= old(self).0.len(),
        ensures
            final(self).0@ == put_be16(old(self).0@, 12, v as int),
    {
        write_be16(&mut self.0, 12, v);
    }

    pub fn set_ethercat_default(&mut self)
        requires
            14 <= old(self).0.len(),
        ensures
            final(self).0@ == eth_default(old(self).0@),
    {
        set_ethercat_default_at(&mut self.0);
    }
}

// ---------------------------------------------------------------------------
// EtherCAT header: length in bits 0..=10, type in bits 12..=15 (LSB0)
// ---------------------------------------------------------------------------
pub open spec fn ec_length(s: Seq<u8>, o: int) -> int {
    s[o] + 256 * (s[o + 1] % 8)
}

pub open spec fn ec_type(s: Seq<u8>, o: int) -> int {
    (s[o + 1] / 16) as int
}

pub open spec fn put_ec_length(s: Seq<u8>, o: int, v: int) -> Seq<u8> {
    s.update(o, (v % 256) as u8).update(o + 1, ((s[o + 1] / 8) * 8 + (v / 256) % 8) as u8)
}

pub open spec fn put_ec_type(s: Seq<u8>, o: int, v: int) -> Seq<u8> {
    s.update(o + 1, (s[o + 1] % 16 + (v % 16) * 16) as u8)
}

pub fn ec_length_at(buf: &[u8], o: usize) -> (r: u16)
    requires
        o + 2 <= buf.len(),
    ensures
        r == ec_length(buf@, o as int),
{
    let lo = buf[o] as u16;
    let hi = buf[o + 1] as u16;
    lo + 256 * (hi % 8)
}

pub fn ec_type_at(buf: &[u8], o: usize) -> (r: u8)
    requires
        o + 2 <= buf.len(),
    ensures
        r == ec_type(buf@, o as int),
{
    buf[o + 1] / 16
}

pub fn set_ec_length_at(buf: &mut Vec<u8>, o: usize, v: u16)
    requires
        o + 2 <= old(buf).len(),
    ensures
        final(buf)@ == put_ec_length(old(buf)@, o as int, v as int),
{
    let b = buf[o + 1];
    let hi = ((v / 256) % 8) as u8;
    buf[o] = (v % 256) as u8;
    buf[o + 1] = (b / 8) * 8 + hi;
}

pub fn set_ec_type_at(buf: &mut Vec<u8>, o: usize, v: u8)
    requires
        o + 2 <= old(buf).len(),
    ensures
        final(buf)@ == put_ec_type(old(buf)@, o as int, v as int),
{
    let b = buf[o + 1];
    buf[o + 1] = b % 16 + (v % 16) * 16;
}

/// The two-byte EtherCAT header over its buffer.
pub struct EtherCatFrame(pub Vec<u8>);

impl EtherCatFrame {
    pub const HEADER_SIZE: usize = 2;

    pub fn new() -> (r: Self)
        ensures
            r.0@ == Seq::new(2, |i: int| 0u8),
    {
        EtherCatFrame(vec![0u8; 2])
    }

    pub fn length(&self) -> (r: u16)
        requires
            2 <= self.0.len(),
        ensures
            r == ec_length(self.0@, 0),
    {
        ec_length_at(self.0.as_slice(), 0)
    }

    pub fn ethercat_type(&self) -> (r: u8)
        requires
            2 <= self.0.len(),
        ensures
            r == ec_type(self.0@, 0),
    {
        ec_type_at(self.0.as_slice(), 0)
    }

    pub fn set_length(&mut self, v: u16)
        requires
            2 <= old(self).0.len(),
        ensures
            final(self).0@ == put_ec_length(old(self).0@, 0, v as int),
    {
        set_ec_length_at(&mut self.0, 0, v);
    }

    pub fn set_ethercat_type(&mut self, v: u8)
        requires
            2 <= old(self).0.len(),
        ensures
            final(self).0@ == put_ec_type(old(self).0@, 0, v as int),
    {
        set_ec_type_at(&mut self.0, 0, v);
    }
}


// ---------------------------------------------------------------------------
// Datagram (PDU) header, ten bytes (LSB0):
//   command type 0..=7, index 8..=15, adp 16..=31, ado 32..=47,
//   length 48..=58, circulated 62, next 63, irq 64..=79;
//   the working counter follows the payload.
// ---------------------------------------------------------------------------
pub open spec fn pdu_command_type(s: Seq<u8>, o: int) -> int {
    s[o] as int
}

pub open spec fn pdu_index(s: Seq<u8>, o: int) -> int {
    s[o + 1] as int
}

pub open spec fn pdu_adp(s: Seq<u8>, o: int) -> int {
    le16(s, o + 2)
}

pub open spec fn pdu_ado(s: Seq<u8>, o: int) -> int {
    le16(s, o + 4)
}

pub open spec fn pdu_length(s: Seq<u8>, o: int) -> int {
    s[o + 6] + 256 * (s[o + 7] % 8)
}

pub open spec fn pdu_is_circulated(s: Seq<u8>, o: int) -> bool {
    (s[o + 7] / 64) % 2 == 1
}

pub open spec fn pdu_has_next(s: Seq<u8>, o: int) -> bool {
    s[o + 7] >= 128
}

pub open spec fn pdu_irq(s: Seq<u8>, o: int) -> int {
    le16(s, o + 8)
}

/// Total size of the datagram at `o`: header, payload and working counter.
pub open spec fn pdu_size(s: Seq<u8>, o: int) -> int {
    PDU_HEADER_SIZE + pdu_length(s, o) + WKC_LENGTH
}

pub open spec fn put_pdu_length(s: Seq<u8>, o: int, v: int) -> Seq<u8> {
    s.update(o + 6, (v % 256) as u8).update(o + 7, ((s[o + 7] / 8) * 8 + (v / 256) % 8) as u8)
}

pub open spec fn put_bit_byte(x: u8, k: int, b: bool) -> u8 {
    if k == 6 {
        ((x as int - ((x / 64) % 2) * 64) + (if b {
            64int
        } else {
            0int
        })) as u8
    } else {
        ((x % 128) as int + (if b {
            128int
        } else {
            0int
        })) as u8
    }
}

pub open spec fn put_pdu_is_circulated(s: Seq<u8>, o: int, b: bool) -> Seq<u8> {
    s.update(o + 7, put_bit_byte(s[o + 7], 6, b))
}

pub open spec fn put_pdu_has_next(s: Seq<u8>, o: int, b: bool) -> Seq<u8> {
    s.update(o + 7, put_bit_byte(s[o + 7], 7, b))
}

pub fn pdu_command_type_at(buf: &[u8], o: usize) -> (r: u8)
    requires
        o + PDU_HEADER_SIZE <= buf.len(),
    ensures
        r == pdu_command_type(buf@, o as int),
{
    buf[o]
}

pub fn pdu_index_at(buf: &[u8], o: usize) -> (r: u8)
    requires
        o + PDU_HEADER_SIZE <= buf.len(),
    ensures
        r == pdu_index(buf@, o as int),
{
    buf[o + 1]
}

pub fn pdu_adp_at(buf: &[u8], o: usize) -> (r: u16)
    requires
        o + PDU_HEADER_SIZE <= buf.len(),
    ensures
        r == pdu_adp(buf@, o as int),
{
    read_le16(buf, o + 2)
}

pub fn pdu_ado_at(buf: &[u8], o: usize) -> (r: u16)
    requires
        o + PDU_HEADER_SIZE <= buf.len(),
    ensures
        r == pdu_ado(buf@, o as int),
{
    read_le16(buf, o + 4)
}

pub fn pdu_length_at(buf: &[u8], o: usize) -> (r: u16)
    requires
        o + PDU_HEADER_SIZE <= buf.len(),
    ensures
        r == pdu_length(buf@, o as int),
        r < 2048,
{
    let lo = buf[o + 6] as u16;
    let hi = buf[o + 7] as u16;
    lo + 256 * (hi % 8)
}

pub fn pdu_is_circulated_at(buf: &[u8], o: usize) -> (r: bool)
    requires
        o + PDU_HEADER_SIZE <= buf.len(),
    ensures
        r == pdu_is_circulated(buf@, o as int),
{
    (buf[o + 7] / 64) % 2 == 1
}

pub fn pdu_has_next_at(buf: &[u8], o: usize) -> (r: bool)
    requires
        o + PDU_HEADER_SIZE <= buf.len(),
    ensures
        r == pdu_has_next(buf@, o as int),
{
    buf[o + 7] >= 128
}

pub fn pdu_irq_at(buf: &[u8], o: usize) -> (r: u16)
    requires
        o + PDU_HEADER_SIZE <= buf.len(),
    ensures
        r == pdu_irq(buf@, o as int),
{
    read_le16(buf, o + 8)
}

pub fn set_pdu_command_type_at(buf: &mut Vec<u8>, o: usize, v: u8)
    requires
        o + PDU_HEADER_SIZE <= old(buf).len(),
    ensures
        final(buf)@ == old(buf)@.update(o as int, v),
{
    buf[o] = v;
}

pub fn set_pdu_index_at(buf: &mut Vec<u8>, o: usize, v: u8)
    requires
        o + PDU_HEADER_SIZE <= old(buf).len(),
    ensures
        final(buf)@ == old(buf)@.update(o + 1, v),
{
    buf[o + 1] = v;
}

pub fn set_pdu_adp_at(buf: &mut Vec<u8>, o: usize, v: u16)
    requires
        o + PDU_HEADER_SIZE <= old(buf).len(),
    ensures
        final(buf)@ == put_le16(old(buf)@, o + 2, v as int),
{
    write_le16(buf, o + 2, v);
}

pub fn set_pdu_ado_at(buf: &mut Vec<u8>, o: usize, v: u16)
    requires
        o + PDU_HEADER_SIZE <= old(buf).len(),
    ensures
        final(buf)@ == put_le16(old(buf)@, o + 4, v as int),
{
    write_le16(buf, o + 4, v);
}

pub fn set_pdu_length_at(buf: &mut Vec<u8>, o: usize, v: u16)
    requires
        o + PDU_HEADER_SIZE <= old(buf).len(),
    ensures
        final(buf)@ == put_pdu_length(old(buf)@, o as int, v as int),
{
    let b = buf[o + 7];
    let hi = ((v / 256) % 8) as u8;
    buf[o + 6] = (v % 256) as u8;
    buf[o + 7] = (b / 8) * 8 + hi;
}

pub fn set_pdu_is_circulated_at(buf: &mut Vec<u8>, o: usize, v: bool)
    requires
        o + PDU_HEADER_SIZE <= old(buf).len(),
    ensures
        final(buf)@ == put_pdu_is_circulated(old(buf)@, o as int, v),
{
    let b = buf[o + 7];
    let cleared: u8 = b - ((b / 64) % 2) * 64;
    let nb: u8 = if v {
        cleared + 64
    } else {
        cleared
    };
    buf[o + 7] = nb;
}

pub fn set_pdu_has_next_at(buf: &mut Vec<u8>, o: usize, v: bool)
    requires
        o + PDU_HEADER_SIZE <= old(buf).len(),
    ensures
        final(buf)@ == put_pdu_has_next(old(buf)@, o as int, v),
{
    let b = buf[o + 7];
    let nb: u8 = if v {
        b % 128 + 128
    } else {
        b % 128
    };
    buf[o + 7] = nb;
}

pub fn set_pdu_irq_at(buf: &mut Vec<u8>, o: usize, v: u16)
    requires
        o + PDU_HEADER_SIZE <= old(buf).len(),
    ensures
        final(buf)@ == put_le16(old(buf)@, o + 8, v as int),
{
    write_le16(buf, o + 8, v);
}

/// Working counter of the datagram at `o`, if the buffer holds it.
pub open spec fn pdu_wkc(s: Seq<u8>, o: int) -> Option<int> {
    if o + pdu_size(s, o) <= s.len() {
        Some(le16(s, o + PDU_HEADER_SIZE + pdu_length(s, o)))
    } else {
        None
    }
}

pub fn pdu_wkc_at(buf: &[u8], o: usize) -> (r: Option<u16>)
    requires
        o + PDU_HEADER_SIZE <= buf.len(),
        fits_buffer(buf@.len() as int),
    ensures
        r matches Some(w) ==> pdu_wkc(buf@, o as int) == Some(w as int),
        r is None ==> pdu_wkc(buf@, o as int) is None,
{
    let len = pdu_length_at(buf, o) as usize;
    if o + PDU_HEADER_SIZE + len + 1 < buf.len() {
        Some(read_le16(buf, o + PDU_HEADER_SIZE + len))
    } else {
        None
    }
}

/// A datagram header (and what follows it) over its buffer.
pub struct EtherCatPdu(pub Vec<u8>);

impl EtherCatPdu {
    pub const HEADER_SIZE: usize = 10;

    pub fn new() -> (r: Self)
        ensures
            r.0@ == Seq::new(10, |i: int| 0u8),
    {
        EtherCatPdu(vec![0u8; 10])
    }

    pub fn command_type(&self) -> (r: u8)
        requires
            10 <= self.0.len(),
        ensures
            r == pdu_command_type(self.0@, 0),
    {
        pdu_command_type_at(self.0.as_slice(), 0)
    }

    pub fn index(&self) -> (r: u8)
        requires
            10 <= self.0.len(),
        ensures
            r == pdu_index(self.0@, 0),
    {
        pdu_index_at(self.0.as_slice(), 0)
    }

    pub fn adp(&self) -> (r: u16)
        requires
            10 <= self.0.len(),
        ensures
            r == pdu_adp(self.0@, 0),
    {
        pdu_adp_at(self.0.as_slice(), 0)
    }

    pub fn ado(&self) -> (r: u16)
        requires
            10 <= self.0.len(),
        ensures
            r == pdu_ado(self.0@, 0),
    {
        pdu_ado_at(self.0.as_slice(), 0)
    }

    pub fn length(&self) -> (r: u16)
        requires
            10 <= self.0.len(),
        ensures
            r == pdu_length(self.0@, 0),
    {
        pdu_length_at(self.0.as_slice(), 0)
    }

    pub fn is_circulated(&self) -> (r: bool)
        requires
            10 <= self.0.len(),
        ensures
            r == pdu_is_circulated(self.0@, 0),
    {
        pdu_is_circulated_at(self.0.as_slice(), 0)
    }

    pub fn has_next(&self) -> (r: bool)
        requires
            10 <= self.0.len(),
        ensures
            r == pdu_has_next(self.0@, 0),
    {
        pdu_has_next_at(self.0.as_slice(), 0)
    }

    pub fn irq(&self) -> (r: u16)
        requires
            10 <= self.0.len(),
        ensures
            r == pdu_irq(self.0@, 0),
    {
        pdu_irq_at(self.0.as_slice(), 0)
    }

    pub fn wkc(&self) -> (r: Option<u16>)
        requires
            10 <= self.0.len(),
            fits_buffer(self.0@.len() as int),
        ensures
            r matches Some(w) ==> pdu_wkc(self.0@, 0) == Some(w as int),
            r is None ==> pdu_wkc(self.0@, 0) is None,
    {
        pdu_wkc_at(self.0.as_slice(), 0)
    }

    /// The bytes after the header.
    pub fn without_header(&self) -> (r: &[u8])
        requires
            10 <= self.0.len(),
        ensures
            r@ == self.0@.subrange(10, self.0@.len() as int),
    {
        slice_subrange(self.0.as_slice(), 10, self.0.len())
    }

    pub fn set_command_type(&mut self, v: u8)
        requires
            10 <= old(self).0.len(),
        ensures
            final(self).0@ == old(self).0@.update(0, v),
    {
        set_pdu_command_type_at(&mut self.0, 0, v);
    }

    pub fn set_index(&mut self, v: u8)
        requires
            10 <= old(self).0.len(),
        ensures
            final(self).0@ == old(self).0@.update(1, v),
    {
        set_pdu_index_at(&mut self.0, 0, v);
    }

    pub fn set_adp(&mut self, v: u16)
        requires
            10 <= old(self).0.len(),
        ensures
            final(self).0@ == put_le16(old(self).0@, 2, v as int),
    {
        set_pdu_adp_at(&mut self.0, 0, v);
    }

    pub fn set_ado(&mut self, v: u16)
        requires
            10 <= old(self).0.len(),
        ensures
            final(self).0@ == put_le16(old(self).0@, 4, v as int),
    {
        set_pdu_ado_at(&mut self.0, 0, v);
    }

    pub fn set_length(&mut self, v: u16)
        requires
            10 <= old(self).0.len(),
        ensures
            final(self).0@ == put_pdu_length(old(self).0@, 0, v as int),
    {
        set_pdu_length_at(&mut self.0, 0, v);
    }

    pub fn set_is_circulated(&mut self, v: bool)
        requires
            10 <= old(self).0.len(),
        ensures
            final(self).0@ == put_pdu_is_circulated(old(self).0@, 0, v),
    {
        set_pdu_is_circulated_at(&mut self.0, 0, v);
    }

    pub fn set_has_next(&mut self, v: bool)
        requires
            10 <= old(self).0.len(),
        ensures
            final(self).0@ == put_pdu_has_next(old(self).0@, 0, v),
    {
        set_pdu_has_next_at(&mut self.0, 0, v);
    }

    pub fn set_irq(&mut self, v: u16)
        requires
            10 <= old(self).0.len(),
        ensures
            final(self).0@ == put_le16(old(self).0@, 8, v as int),
    {
        set_pdu_irq_at(&mut self.0, 0, v);
    }
}

/// Writing a field of a datagram header and reading it back gives the value
/// written (truncated to the field's width), and leaves the other fields as
/// they were.
pub proof fn lemma_pdu_field_roundtrip(s: Seq<u8>, o: int, v: int, b: bool)
    requires
        0 <= o,
        o + PDU_HEADER_SIZE <= s.len(),
        0 <= v < 65536,
    ensures
        pdu_length(put_pdu_length(s, o, v), o) == v % 2048,
        pdu_has_next(put_pdu_length(s, o, v), o) == pdu_has_next(s, o),
        pdu_is_circulated(put_pdu_length(s, o, v), o) == pdu_is_circulated(s, o),
        pdu_adp(put_pdu_length(s, o, v), o) == pdu_adp(s, o),
        pdu_has_next(put_pdu_has_next(s, o, b), o) == b,
        pdu_length(put_pdu_has_next(s, o, b), o) == pdu_length(s, o),
        pdu_is_circulated(put_pdu_has_next(s, o, b), o) == pdu_is_circulated(s, o),
        pdu_is_circulated(put_pdu_is_circulated(s, o, b), o) == b,
        pdu_length(put_pdu_is_circulated(s, o, b), o) == pdu_length(s, o),
        pdu_has_next(put_pdu_is_circulated(s, o, b), o) == pdu_has_next(s, o),
        pdu_adp(put_le16(s, o + 2, v), o) == v,
        pdu_ado(put_le16(s, o + 4, v), o) == v,
        pdu_irq(put_le16(s, o + 8, v), o) == v,
        pdu_length(put_le16(s, o + 2, v), o) == pdu_length(s, o),
        pdu_length(put_le16(s, o + 4, v), o) == pdu_length(s, o),
        pdu_length(put_le16(s, o + 8, v), o) == pdu_length(s, o),
{
    let x = s[o + 7];
    let hi = ((v / 256) % 8) as u8;
    assert((((x / 8) * 8 + hi) as u8) % 8 == hi && (((x / 8) * 8 + hi) as u8) / 64 == x / 64);
    assert(((((x / 8) * 8 + hi) as u8) >= 128) == (x >= 128));
    assert(put_bit_byte(x, 7, b) % 8 == x % 8 && (put_bit_byte(x, 7, b) / 64) % 2 == (x / 64) % 2
        && (put_bit_byte(x, 7, b) >= 128) == b) by {
        let y: u8 = if b { (x % 128 + 128) as u8 } else { (x % 128) as u8 };
        assert(y % 8 == x % 8 && (y / 64) % 2 == (x / 64) % 2);
    }
    assert(put_bit_byte(x, 6, b) % 8 == x % 8 && (put_bit_byte(x, 6, b) >= 128) == (x >= 128)
        && ((put_bit_byte(x, 6, b) / 64) % 2 == 1) == b) by {
        let y: u8 = if b { (x - ((x / 64) % 2) * 64 + 64) as u8 } else { (x - ((x / 64) % 2) * 64) as u8 };
        assert(y % 8 == x % 8 && (y >= 128) == (x >= 128));
        assert(b ==> (y / 64) % 2 == 1);
        assert(!b ==> (y / 64) % 2 == 0);
    }
}


// ---------------------------------------------------------------------------
// Mailbox header, six bytes (LSB0):
//   length 0..=15, address 16..=31, priority 38..=39, type 40..=43,
//   count 44..=46.
// ---------------------------------------------------------------------------
pub open spec fn mb_length(s: Seq<u8>) -> int {
    le16(s, 0)
}

pub open spec fn mb_address(s: Seq<u8>) -> int {
    le16(s, 2)
}

pub open spec fn mb_priority(s: Seq<u8>) -> int {
    (s[4] / 64) as int
}

pub open spec fn mb_type_code(s: Seq<u8>) -> int {
    (s[5] % 16) as int
}

pub open spec fn mb_count(s: Seq<u8>) -> int {
    ((s[5] / 16) % 8) as int
}

pub open spec fn put_mb_priority(s: Seq<u8>, v: int) -> Seq<u8> {
    s.update(4, (s[4] % 64 + (v % 4) * 64) as u8)
}

pub open spec fn put_mb_type_code(s: Seq<u8>, v: int) -> Seq<u8> {
    s.update(5, ((s[5] / 16) * 16 + v % 16) as u8)
}

pub open spec fn put_mb_count(s: Seq<u8>, v: int) -> Seq<u8> {
    s.update(5, (s[5] % 16 + (s[5] / 128) * 128 + (v % 8) * 16) as u8)
}

/// Protocol carried in a mailbox.
#[derive(Debug, Clone, Copy, PartialEq, Eq, Structural)]
pub enum MailboxType {
    Error,
    AoE,
    EoE,
    CoE,
    FoE,
    SoE,
    VoE,
    Other,
}

pub open spec fn mailbox_type_spec(v: int) -> MailboxType {
    if v == 0 {
        MailboxType::Error
    } else if v == 1 {
        MailboxType::AoE
    } else if v == 2 {
        MailboxType::EoE
    } else if v == 3 {
        MailboxType::CoE
    } else if v == 4 {
        MailboxType::FoE
    } else if v == 5 {
        MailboxType::SoE
    } else if v == 0xf {
        MailboxType::VoE
    } else {
        MailboxType::Other
    }
}

pub open spec fn mailbox_type_code(t: MailboxType) -> int {
    match t {
        MailboxType::Error => 0,
        MailboxType::AoE => 1,
        MailboxType::EoE => 2,
        MailboxType::CoE => 3,
        MailboxType::FoE => 4,
        MailboxType::SoE => 5,
        MailboxType::VoE => 0xf,
        MailboxType::Other => 0x10,
    }
}

impl MailboxType {
    /// Decodes a type code; unknown codes give `Other`.
    pub fn from_u8(v: u8) -> (r: MailboxType)
        ensures
            r == mailbox_type_spec(v as int),
    {
        match v {
            0 => MailboxType::Error,
            1 => MailboxType::AoE,
            2 => MailboxType::EoE,
            3 => MailboxType::CoE,
            4 => MailboxType::FoE,
            5 => MailboxType::SoE,
            0xf => MailboxType::VoE,
            _ => MailboxType::Other,
        }
    }

    /// The type code.
    pub fn to_u8(self) -> (r: u8)
        ensures
            r == mailbox_type_code(self),
    {
        match self {
            MailboxType::Error => 0,
            MailboxType::AoE => 1,
            MailboxType::EoE => 2,
            MailboxType::CoE => 3,
            MailboxType::FoE => 4,
            MailboxType::SoE => 5,
            MailboxType::VoE => 0xf,
            MailboxType::Other => 0x10,
        }
    }
}

/// A mailbox header (and what follows it) over its buffer.
pub struct MailboxFrame(pub Vec<u8>);

impl MailboxFrame {
    pub const HEADER_SIZE: usize = 6;

    pub fn new() -> (r: Self)
        ensures
            r.0@ == Seq::new(6, |i: int| 0u8),
    {
        MailboxFrame(vec![0u8; 6])
    }

    pub fn length(&self) -> (r: u16)
        requires
            6 <= self.0.len(),
        ensures
            r == mb_length(self.0@),
    {
        read_le16(self.0.as_slice(), 0)
    }

    pub fn address(&self) -> (r: u16)
        requires
            6 <= self.0.len(),
        ensures
            r == mb_address(self.0@),
    {
        read_le16(self.0.as_slice(), 2)
    }

    pub fn prioriry(&self) -> (r: u8)
        requires
            6 <= self.0.len(),
        ensures
            r == mb_priority(self.0@),
    {
        self.0[4] / 64
    }

    pub fn mailbox_type(&self) -> (r: u8)
        requires
            6 <= self.0.len(),
        ensures
            r == mb_type_code(self.0@),
    {
        self.0[5] % 16
    }

    pub fn count(&self) -> (r: u8)
        requires
            6 <= self.0.len(),
        ensures
            r == mb_count(self.0@),
    {
        (self.0[5] / 16) % 8
    }

    pub fn mb_type(&self) -> (r: MailboxType)
        requires
            6 <= self.0.len(),
        ensures
            r == mailbox_type_spec(mb_type_code(self.0@)),
    {
        MailboxType::from_u8(self.mailbox_type())
    }

    pub fn set_length(&mut self, v: u16)
        requires
            6 <= old(self).0.len(),
        ensures
            final(self).0@ == put_le16(old(self).0@, 0, v as int),
    {
        write_le16(&mut self.0, 0, v);
    }

    pub fn set_address(&mut self, v: u16)
        requires
            6 <= old(self).0.len(),
        ensures
            final(self).0@ == put_le16(old(self).0@, 2, v as int),
    {
        write_le16(&mut self.0, 2, v);
    }

    pub fn set_prioriry(&mut self, v: u8)
        requires
            6 <= old(self).0.len(),
        ensures
            final(self).0@ == put_mb_priority(old(self).0@, v as int),
    {
        let b = self.0[4];
        self.0[4] = b % 64 + (v % 4) * 64;
    }

    pub fn set_mailbox_type(&mut self, v: u8)
        requires
            6 <= old(self).0.len(),
        ensures
            final(self).0@ == put_mb_type_code(old(self).0@, v as int),
    {
        set_mailbox_type_at(&mut self.0, v);
    }

    pub fn set_count(&mut self, v: u8)
        requires
            6 <= old(self).0.len(),
        ensures
            final(self).0@ == put_mb_count(old(self).0@, v as int),
    {
        let b = self.0[5];
        self.0[5] = b % 16 + (b / 128) * 128 + (v % 8) * 16;
    }

    pub fn set_mb_type(&mut self, mb_type: MailboxType)
        requires
            6 <= old(self).0.len(),
        ensures
            final(self).0@ == put_mb_type_code(old(self).0@, mailbox_type_code(mb_type)),
    {
        self.set_mailbox_type(mb_type.to_u8());
    }

    /// The bytes after the header.
    pub fn without_header(&self) -> (r: &[u8])
        requires
            6 <= self.0.len(),
        ensures
            r@ == self.0@.subrange(6, self.0@.len() as int),
    {
        slice_subrange(self.0.as_slice(), 6, self.0.len())
    }
}

pub fn set_mailbox_type_at(buf: &mut Vec<u8>, v: u8)
    requires
        6 <= old(buf).len(),
    ensures
        final(buf)@ == put_mb_type_code(old(buf)@, v as int),
{
    let b = buf[5];
    buf[5] = (b / 16) * 16 + v % 16;
}

/// Detail code of a mailbox error reply.
#[derive(Debug, Clone, Copy, PartialEq, Eq, Structural)]
pub enum MailboxErrorDetail {
    Unspecified,
    Syntax,
    UnsupportedProtocol,
    InvalidChannel,
    ServiceNotSupported,
    InvalidHeader,
    SizeTooShort,
    NoMoreMemory,
    InvalidSize,
}

pub open spec fn mailbox_error_detail_spec(v: int) -> MailboxErrorDetail {
    if v == 1 {
        MailboxErrorDetail::Syntax
    } else if v == 2 {
        MailboxErrorDetail::UnsupportedProtocol
    } else if v == 3 {
        MailboxErrorDetail::InvalidChannel
    } else if v == 4 {
        MailboxErrorDetail::ServiceNotSupported
    } else if v == 5 {
        MailboxErrorDetail::InvalidHeader
    } else if v == 6 {
        MailboxErrorDetail::SizeTooShort
    } else if v == 7 {
        MailboxErrorDetail::NoMoreMemory
    } else if v == 8 {
        MailboxErrorDetail::InvalidSize
    } else {
        MailboxErrorDetail::Unspecified
    }
}

impl MailboxErrorDetail {
    /// Decodes a detail code; unknown codes give `Unspecified`.
    pub fn from_u16(v: u16) -> (r: MailboxErrorDetail)
        ensures
            r == mailbox_error_detail_spec(v as int),
    {
        match v {
            1 => MailboxErrorDetail::Syntax,
            2 => MailboxErrorDetail::UnsupportedProtocol,
            3 => MailboxErrorDetail::InvalidChannel,
            4 => MailboxErrorDetail::ServiceNotSupported,
            5 => MailboxErrorDetail::InvalidHeader,
            6 => MailboxErrorDetail::SizeTooShort,
            7 => MailboxErrorDetail::NoMoreMemory,
            8 => MailboxErrorDetail::InvalidSize,
            _ => MailboxErrorDetail::Unspecified,
        }
    }
}

/// The body of a mailbox error reply: service type and detail code.
#[derive(Debug, Clone, Copy)]
pub struct MailboxErrorFrame(pub [u8; 4]);

impl MailboxErrorFrame {
    pub const SIZE: usize = 4;

    pub fn new() -> (r: Self)
        ensures
            r.0@ == Seq::new(4, |i: int| 0u8),
    {
        let r = MailboxErrorFrame([0u8; 4]);
        assert(r.0@ =~= Seq::new(4, |i: int| 0u8));
        r
    }

    pub fn service_type(&self) -> (r: u16)
        ensures
            r == le16(self.0@, 0),
    {
        read_le16(self.0.as_slice(), 0)
    }

    pub fn detail(&self) -> (r: u16)
        ensures
            r == le16(self.0@, 2),
    {
        read_le16(self.0.as_slice(), 2)
    }

    pub fn error_detail(&self) -> (r: MailboxErrorDetail)
        ensures
            r == mailbox_error_detail_spec(le16(self.0@, 2)),
    {
        MailboxErrorDetail::from_u16(self.detail())
    }
}

/// Datagram command codes.
#[derive(Debug, Clone, Copy, PartialEq, Eq, Structural)]
pub enum CommandType {
    /// No operation.
    NOP,
    /// Auto increment read.
    APRD,
    /// Auto increment write.
    APWR,
    /// Auto increment read write.
    APRW,
    /// Configured address read.
    FPRD,
    /// Configured address write.
    FPWR,
    /// Configured address read write.
    FPRW,
    /// Broadcast read.
    BRD,
    /// Broadcast write.
    BWR,
    /// Broadcast read write.
    BRW,
    /// Logical memory read.
    LRD,
    /// Logical memory write.
    LWR,
    /// Logical memory read write.
    LRW,
    /// Auto increment read multiple write.
    ARMW,
    /// Configured address read multiple write.
    FRMW,
    Invalid,
}

pub open spec fn command_type_code(c: CommandType) -> int {
    match c {
        CommandType::NOP => 0,
        CommandType::APRD => 1,
        CommandType::APWR => 2,
        CommandType::APRW => 3,
        CommandType::FPRD => 4,
        CommandType::FPWR => 5,
        CommandType::FPRW => 6,
        CommandType::BRD => 7,
        CommandType::BWR => 8,
        CommandType::BRW => 9,
        CommandType::LRD => 10,
        CommandType::LWR => 11,
        CommandType::LRW => 12,
        CommandType::ARMW => 13,
        CommandType::FRMW => 14,
        CommandType::Invalid => 15,
    }
}

pub open spec fn command_type_spec(v: int) -> CommandType {
    if v == 0 {
        CommandType::NOP
    } else if v == 1 {
        CommandType::APRD
    } else if v == 2 {
        CommandType::APWR
    } else if v == 3 {
        CommandType::APRW
    } else if v == 4 {
        CommandType::FPRD
    } else if v == 5 {
        CommandType::FPWR
    } else if v == 6 {
        CommandType::FPRW
    } else if v == 7 {
        CommandType::BRD
    } else if v == 8 {
        CommandType::BWR
    } else if v == 9 {
        CommandType::BRW
    } else if v == 10 {
        CommandType::LRD
    } else if v == 11 {
        CommandType::LWR
    } else if v == 12 {
        CommandType::LRW
    } else if v == 13 {
        CommandType::ARMW
    } else if v == 14 {
        CommandType::FRMW
    } else {
        CommandType::Invalid
    }
}

impl CommandType {
    /// Decodes a command code; unknown codes give `Invalid`.
    pub fn new(v: u8) -> (r: CommandType)
        ensures
            r == command_type_spec(v as int),
    {
        match v {
            0 => CommandType::NOP,
            1 => CommandType::APRD,
            2 => CommandType::APWR,
            3 => CommandType::APRW,
            4 => CommandType::FPRD,
            5 => CommandType::FPWR,
            6 => CommandType::FPRW,
            7 => CommandType::BRD,
            8 => CommandType::BWR,
            9 => CommandType::BRW,
            10 => CommandType::LRD,
            11 => CommandType::LWR,
            12 => CommandType::LRW,
            13 => CommandType::ARMW,
            14 => CommandType::FRMW,
            _ => CommandType::Invalid,
        }
    }

    /// The command code.
    pub fn to_u8(self) -> (r: u8)
        ensures
            r == command_type_code(self),
    {
        match self {
            CommandType::NOP => 0,
            CommandType::APRD => 1,
            CommandType::APWR => 2,
            CommandType::APRW => 3,
            CommandType::FPRD => 4,
            CommandType::FPWR => 5,
            CommandType::FPRW => 6,
            CommandType::BRD => 7,
            CommandType::BWR => 8,
            CommandType::BRW => 9,
            CommandType::LRD => 10,
            CommandType::LWR => 11,
            CommandType::LRW => 12,
            CommandType::ARMW => 13,
            CommandType::FRMW => 14,
            CommandType::Invalid => 15,
        }
    }
}

/// Encoding a command type and decoding the code gives the command type back;
/// the same holds of mailbox types other than `Other`.
pub proof fn lemma_type_codes_roundtrip(c: CommandType, t: MailboxType)
    ensures
        command_type_spec(command_type_code(c)) == c,
        t != MailboxType::Other ==> mailbox_type_spec(mailbox_type_code(t)) == t,
        mailbox_type_code(t) < 16 <==> t != MailboxType::Other,
{
}

} // verus!
