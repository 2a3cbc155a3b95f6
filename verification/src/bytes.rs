//! Little- and big-endian integers inside byte buffers, with their
//! mathematical meaning as spec functions over `Seq<u8>`.
use vstd::prelude::*;

verus! {

/// Buffers handled by the library are far below the end of the address space,
/// so that adding a frame-sized amount to an index never overflows.
pub open spec fn fits_buffer(len: int) -> bool {
    len <= usize::MAX - 0x1_0000
}

/// Little-endian 16-bit value at `o`.
pub open spec fn le16(s: Seq<u8>, o: int) -> int {
    s[o] + 256 * s[o + 1]
}

/// Little-endian 32-bit value at `o`.
pub open spec fn le32(s: Seq<u8>, o: int) -> int {
    le16(s, o) + 65536 * le16(s, o + 2)
}

/// Big-endian 16-bit value at `o`.
pub open spec fn be16(s: Seq<u8>, o: int) -> int {
    256 * s[o] + s[o + 1]
}

/// Big-endian 48-bit value at `o`.
pub open spec fn be48(s: Seq<u8>, o: int) -> int {
    0x1_0000_0000 * be16(s, o) + 65536 * be16(s, o + 2) + be16(s, o + 4)
}

/// `s` with a little-endian 16-bit `v` stored at `o`.
pub open spec fn put_le16(s: Seq<u8>, o: int, v: int) -> Seq<u8> {
    s.update(o, (v % 256) as u8).update(o + 1, ((v / 256) % 256) as u8)
}

/// `s` with a little-endian 32-bit `v` stored at `o`.
pub open spec fn put_le32(s: Seq<u8>, o: int, v: int) -> Seq<u8> {
    put_le16(put_le16(s, o, v % 65536), o + 2, (v / 65536) % 65536)
}

/// `s` with a big-endian 16-bit `v` stored at `o`.
pub open spec fn put_be16(s: Seq<u8>, o: int, v: int) -> Seq<u8> {
    s.update(o, ((v / 256) % 256) as u8).update(o + 1, (v % 256) as u8)
}

/// `s` with a big-endian 48-bit `v` stored at `o`.
pub open spec fn put_be48(s: Seq<u8>, o: int, v: int) -> Seq<u8> {
    put_be16(
        put_be16(put_be16(s, o, (v / 0x1_0000_0000) % 65536), o + 2, (v / 65536) % 65536),
        o + 4,
        v % 65536,
    )
}

/// `s` with the bytes of `data` copied to `o..o + data.len()`.
pub open spec fn put_bytes(s: Seq<u8>, o: int, data: Seq<u8>) -> Seq<u8> {
    s.subrange(0, o) + data + s.subrange(o + data.len(), s.len() as int)
}

/// `s` with all bytes in `o..o + n` set to zero.
pub open spec fn zero_range(s: Seq<u8>, o: int, n: int) -> Seq<u8> {
    put_bytes(s, o, Seq::new(n as nat, |i: int| 0u8))
}

/// The low and high bytes of a 16-bit value, by masking and shifting.
pub proof fn lemma_u16_bytes(v: u16)
    ensures
        (v & 0xff) as int == v % 256,
        (v >> 8u16) as int == v / 256,
        v / 256 < 256,
{
    assert((v & 0xff) == v % 256) by (bit_vector);
    assert((v >> 8u16) == v / 256) by (bit_vector);
}

/// Reads the little-endian 16-bit value at `o`.
pub fn read_le16(buf: &[u8], o: usize) -> (r: u16)
    requires
        o + 2 <= buf.len(),
    ensures
        r == le16(buf@, o as int),
{
    let lo = buf[o] as u16;
    let hi = buf[o + 1] as u16;
    assert((hi << 8u16) | lo == lo + 256 * hi) by (bit_vector)
        requires
            lo < 256,
            hi < 256,
    ;
    (hi << 8u16) | lo
}

/// Reads the little-endian 32-bit value at `o`.
pub fn read_le32(buf: &[u8], o: usize) -> (r: u32)
    requires
        o + 4 <= buf.len(),
    ensures
        r == le32(buf@, o as int),
{
    let lo = read_le16(buf, o) as u32;
    let hi = read_le16(buf, o + 2) as u32;
    assert((hi << 16u32) | lo == lo + 65536 * hi) by (bit_vector)
        requires
            lo < 65536,
            hi < 65536,
    ;
    (hi << 16u32) | lo
}

/// Reads the big-endian 16-bit value at `o`.
pub fn read_be16(buf: &[u8], o: usize) -> (r: u16)
    requires
        o + 2 <= buf.len(),
    ensures
        r == be16(buf@, o as int),
{
    let hi = buf[o] as u16;
    let lo = buf[o + 1] as u16;
    assert((hi << 8u16) | lo == lo + 256 * hi) by (bit_vector)
        requires
            lo < 256,
            hi < 256,
    ;
    (hi << 8u16) | lo
}

/// Reads the big-endian 48-bit value at `o`.
pub fn read_be48(buf: &[u8], o: usize) -> (r: u64)
    requires
        o + 6 <= buf.len(),
    ensures
        r == be48(buf@, o as int),
{
    let a = read_be16(buf, o) as u64;
    let b = read_be16(buf, o + 2) as u64;
    let c = read_be16(buf, o + 4) as u64;
    assert((a << 32u64) | (b << 16u64) | c == 0x1_0000_0000 * a + 65536 * b + c) by (bit_vector)
        requires
            a < 65536,
            b < 65536,
            c < 65536,
    ;
    (a << 32u64) | (b << 16u64) | c
}

/// Stores `v` little-endian at `o`.
pub fn write_le16(buf: &mut Vec<u8>, o: usize, v: u16)
    requires
        o + 2 <= old(buf).len(),
    ensures
        final(buf)@ == put_le16(old(buf)@, o as int, v as int),
{
    proof {
        lemma_u16_bytes(v);
    }
    buf[o] = (v & 0xff) as u8;
    buf[o + 1] = (v >> 8u16) as u8;
}

/// Stores `v` little-endian at `o`.
pub fn write_le32(buf: &mut Vec<u8>, o: usize, v: u32)
    requires
        o + 4 <= old(buf).len(),
    ensures
        final(buf)@ == put_le32(old(buf)@, o as int, v as int),
{
    assert((v & 0xffff) == v % 65536) by (bit_vector);
    assert((v >> 16u32) == v / 65536) by (bit_vector);
    assert(v / 65536 < 65536) by (bit_vector);
    write_le16(buf, o, (v & 0xffff) as u16);
    write_le16(buf, o + 2, (v >> 16u32) as u16);
}

/// Stores `v` big-endian at `o`.
pub fn write_be16(buf: &mut Vec<u8>, o: usize, v: u16)
    requires
        o + 2 <= old(buf).len(),
    ensures
        final(buf)@ == put_be16(old(buf)@, o as int, v as int),
{
    proof {
        lemma_u16_bytes(v);
    }
    buf[o] = (v >> 8u16) as u8;
    buf[o + 1] = (v & 0xff) as u8;
}

/// Stores the low 48 bits of `v` big-endian at `o`.
pub fn write_be48(buf: &mut Vec<u8>, o: usize, v: u64)
    requires
        o + 6 <= old(buf).len(),
    ensures
        final(buf)@ == put_be48(old(buf)@, o as int, v as int),
{
    assert(((v >> 32u64) & 0xffff) == (v / 0x1_0000_0000) % 65536) by (bit_vector);
    assert(((v >> 16u64) & 0xffff) == (v / 65536) % 65536) by (bit_vector);
    assert((v & 0xffff) == v % 65536) by (bit_vector);
    write_be16(buf, o, ((v >> 32u64) & 0xffff) as u16);
    write_be16(buf, o + 2, ((v >> 16u64) & 0xffff) as u16);
    write_be16(buf, o + 4, (v & 0xffff) as u16);
}

/// Copies `data` into `buf` at `o`.
pub fn copy_into(buf: &mut Vec<u8>, o: usize, data: &[u8])
    requires
        o + data@.len() <= old(buf).len(),
    ensures
        final(buf)@ == put_bytes(old(buf)@, o as int, data@),
{
    let n = data.len();
    let mut i: usize = 0;
    while i < n
        invariant
            n == data@.len(),
            o + n <= buf.len(),
            i <= n,
            buf@ =~= old(buf)@.subrange(0, o as int) + data@.subrange(0, i as int)
                + old(buf)@.subrange(o + i, old(buf)@.len() as int),
            buf@.len() == old(buf)@.len(),
        decreases n - i,
    {
        buf[o + i] = data[i];
        i = i + 1;
        assert(buf@ =~= old(buf)@.subrange(0, o as int) + data@.subrange(0, i as int)
            + old(buf)@.subrange(o + i, old(buf)@.len() as int));
    }
    assert(data@.subrange(0, n as int) =~= data@);
    assert(buf@ =~= put_bytes(old(buf)@, o as int, data@));
}

/// Sets the bytes `o..o + n` of `buf` to zero.
pub fn clear_range(buf: &mut Vec<u8>, o: usize, n: usize)
    requires
        o + n <= old(buf).len(),
    ensures
        final(buf)@ == zero_range(old(buf)@, o as int, n as int),
{
    let mut i: usize = 0;
    while i < n
        invariant
            o + n <= buf.len(),
            i <= n,
            buf@.len() == old(buf)@.len(),
            buf@ =~= old(buf)@.subrange(0, o as int) + Seq::new(i as nat, |k: int| 0u8)
                + old(buf)@.subrange(o + i, old(buf)@.len() as int),
        decreases n - i,
    {
        buf[o + i] = 0;
        i = i + 1;
        assert(buf@ =~= old(buf)@.subrange(0, o as int) + Seq::new(i as nat, |k: int| 0u8)
            + old(buf)@.subrange(o + i, old(buf)@.len() as int));
    }
    assert(buf@ =~= zero_range(old(buf)@, o as int, n as int));
}

} // verus!
