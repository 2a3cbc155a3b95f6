//! What the queue reads after its frame went out and came back unchanged.
use crate::bytes::put_bytes;
use crate::ec_frame::{ec_add_command_spec, pdu_chain_nz};
use crate::ethercat_frame::{
    chain_reaches, init_spec, lemma_pdu_size_positive, lemma_put_pdu_header, pdu_chain, put_pdu_header,
    FIRST_PDU_OFFSET,
};
use crate::interface::{concat_pdus, copy_pdus_spec, reply_pdus};
use crate::frame::{
    command_type_code, command_type_spec, ec_length, lemma_type_codes_roundtrip, pdu_adp, pdu_ado,
    pdu_command_type, pdu_index, pdu_length, pdu_size, put_ec_length, put_pdu_has_next, MailboxType,
    ETHERNET_HEADER_SIZE, PDU_HEADER_SIZE, WKC_LENGTH,
};
use crate::round_trip::{lemma_chain_nz_full, lemma_chain_within};
use crate::socket::{reply_command, reply_payload};
use vstd::prelude::*;

verus! {

/// The datagram at `p` of `s` carries the index, length, command and data
/// of the datagram at `o` of `q`.
pub open spec fn same_datagram(q: Seq<u8>, o: int, s: Seq<u8>, p: int) -> bool {
    &&& pdu_index(s, p) == pdu_index(q, o)
    &&& pdu_length(s, p) == pdu_length(q, o)
    &&& reply_command(s, p) == reply_command(q, o)
    &&& reply_payload(s, p) == reply_payload(q, o)
}

/// Where the walk stands after `k` of the datagrams `c` that fill `t`
/// bytes.
spec fn off_at(c: Seq<int>, t: int, k: int) -> int {
    if k < c.len() {
        c[k]
    } else {
        t
    }
}

/// The offsets `c[a..b]`, each moved by `base`.
spec fn moved(c: Seq<int>, a: int, b: int, base: int) -> Seq<int> {
    Seq::new((b - a) as nat, |i: int| c[a + i] + base)
}

/// The walk over `t` bytes from `a` steps from each datagram to the next,
/// and the last one ends at `t`.
proof fn lemma_chain_steps(q: Seq<u8>, a: int, t: int)
    requires
        chain_reaches(q, a, t),
    ensures
        pdu_chain(q, a, t).len() == 0 ==> a == t,
        pdu_chain(q, a, t).len() > 0 ==> pdu_chain(q, a, t)[0] == a,
        forall|k: int|
            0 <= k < pdu_chain(q, a, t).len() ==> off_at(pdu_chain(q, a, t), t, k + 1) == #[trigger] pdu_chain(
                q,
                a,
                t,
            )[k] + pdu_size(q, pdu_chain(q, a, t)[k]),
    decreases if a < t { t - a } else { 0 },
{
    if a != t {
        lemma_pdu_size_positive(q, a);
        let nxt = a + pdu_size(q, a);
        lemma_chain_steps(q, nxt, t);
        let c = pdu_chain(q, a, t);
        let d = pdu_chain(q, nxt, t);
        assert(c == seq![a] + d);
        assert forall|k: int| 0 <= k < c.len() implies off_at(c, t, k + 1) == #[trigger] c[k] + pdu_size(q, c[k]) by {
            if k > 0 {
                assert(c[k] == d[k - 1]);
                if k + 1 < c.len() {
                    assert(c[k + 1] == d[k]);
                }
            } else {
                if 1 < c.len() {
                    assert(c[1] == d[0]);
                }
            }
        }
    }
}

/// The datagrams `c` of `q` lie one after the other from 0 to `t`, each
/// with data.
spec fn laid_out(q: Seq<u8>, c: Seq<int>, t: int) -> bool {
    &&& t <= q.len()
    &&& c.len() == 0 ==> t == 0
    &&& c.len() > 0 ==> c[0] == 0 && c[c.len() - 1] + pdu_size(q, c[c.len() - 1]) == t
    &&& forall|i: int|
        0 <= i < c.len() ==> 0 <= #[trigger] c[i] && c[i] + pdu_size(q, c[i]) <= t && pdu_length(q, c[i]) != 0
    &&& forall|i: int, j: int|
        0 <= i && j == i + 1 && j < c.len() ==> #[trigger] c[j] == #[trigger] c[i] + pdu_size(q, c[i])
}

/// A walk that ends at `t`, over datagrams with data, lays them out.
proof fn lemma_laid_out(q: Seq<u8>, t: int)
    requires
        chain_reaches(q, 0, t),
        t <= q.len(),
        forall|i: int| 0 <= i < pdu_chain(q, 0, t).len() ==> pdu_length(q, #[trigger] pdu_chain(q, 0, t)[i]) != 0,
    ensures
        laid_out(q, pdu_chain(q, 0, t), t),
{
    lemma_chain_steps(q, 0, t);
    lemma_chain_within(q, 0, t);
    crate::ethercat_frame::lemma_chain_elements(q, 0, t);
    let c = pdu_chain(q, 0, t);
    if c.len() > 0 {
        assert(off_at(c, t, c.len() - 1 + 1) == c[c.len() - 1] + pdu_size(q, c[c.len() - 1]));
    }
    assert forall|i: int, j: int| 0 <= i && j == i + 1 && j < c.len() implies #[trigger] c[j] == #[trigger] c[i]
        + pdu_size(q, c[i]) by {
        assert(off_at(c, t, i + 1) == c[i] + pdu_size(q, c[i]));
    }
}

/// Walking `s` from the `j`th of the datagrams `c` of `q`, moved by `base`,
/// to `base + t` finds `c[j..k]` moved by `base`, where those datagrams read
/// with the lengths they have in `q` and the walk then stops: at the end, or
/// on zero bytes.
proof fn lemma_walk(s: Seq<u8>, q: Seq<u8>, c: Seq<int>, t: int, base: int, j: int, k: int)
    requires
        laid_out(q, c, t),
        0 <= base,
        0 <= j <= k <= c.len(),
        base + t <= s.len(),
        forall|i: int| j <= i < k ==> pdu_length(s, base + #[trigger] c[i]) == pdu_length(q, c[i]),
        k < c.len() ==> forall|x: int| base + c[k] <= x < s.len() ==> s[x] == 0,
    ensures
        pdu_chain_nz(s, base + off_at(c, t, j), base + t) == moved(c, j, k, base),
    decreases k - j,
{
    if j == k {
        assert(moved(c, j, k, base) =~= Seq::<int>::empty());
        if k < c.len() {
            let p = base + c[k];
            lemma_pdu_size_positive(q, c[k]);
            assert(c[k] + pdu_size(q, c[k]) <= t);
            assert(s[p + 6] == 0);
            assert(s[p + 7] == 0);
            assert(pdu_length(s, p) == 0);
        }
    } else {
        let p = base + c[j];
        lemma_pdu_size_positive(q, c[j]);
        assert(c[j] + pdu_size(q, c[j]) <= t);
        assert(pdu_length(s, p) == pdu_length(q, c[j]));
        assert(pdu_size(s, p) == pdu_size(q, c[j]));
        assert(off_at(c, t, j + 1) == c[j] + pdu_size(q, c[j]));
        lemma_walk(s, q, c, t, base, j + 1, k);
        assert(moved(c, j, k, base) =~= seq![p] + moved(c, j + 1, k, base));
    }
}

/// The fields of a datagram follow from its bytes: where `b` holds at `pb`
/// the bytes that `a` holds at `pa`, but for the high bits of the length
/// byte, the datagrams read the same.
proof fn lemma_fields_from_bytes(a: Seq<u8>, pa: int, b: Seq<u8>, pb: int)
    requires
        0 <= pa,
        0 <= pb,
        pa + pdu_size(a, pa) <= a.len(),
        pb + pdu_size(a, pa) <= b.len(),
        forall|i: int| 0 <= i < pdu_size(a, pa) && i != 7 ==> #[trigger] b[pb + i] == a[pa + i],
        b[pb + 7] % 8 == a[pa + 7] % 8,
    ensures
        same_datagram(a, pa, b, pb),
{
    lemma_pdu_size_positive(a, pa);
    let i0 = 0int;
    let i1 = 1int;
    let i2 = 2int;
    let i3 = 3int;
    let i4 = 4int;
    let i5 = 5int;
    let i6 = 6int;
    assert(b[pb + i0] == a[pa + i0]);
    assert(b[pb + i1] == a[pa + i1]);
    assert(b[pb + i2] == a[pa + i2]);
    assert(b[pb + i3] == a[pa + i3]);
    assert(b[pb + i4] == a[pa + i4]);
    assert(b[pb + i5] == a[pa + i5]);
    assert(b[pb + i6] == a[pa + i6]);
    assert(pdu_length(b, pb) == pdu_length(a, pa));
    let n = pdu_length(a, pa);
    assert forall|i: int| 0 <= i < n implies #[trigger] reply_payload(b, pb)[i] == reply_payload(a, pa)[i] by {
        let m = PDU_HEADER_SIZE + i;
        assert(b[pb + m] == a[pa + m]);
    }
    assert(reply_payload(b, pb) =~= reply_payload(a, pa));
}

/// The arguments with which the frame takes the datagram at `o` of `q`.
spec fn add_args(q: Seq<u8>, o: int) -> (u8, int, int, int, Seq<u8>) {
    (
        pdu_index(q, o) as u8,
        command_type_code(command_type_spec(pdu_command_type(q, o))),
        pdu_adp(q, o),
        pdu_ado(q, o),
        q.subrange(o + PDU_HEADER_SIZE, o + PDU_HEADER_SIZE + pdu_length(q, o)),
    )
}

/// A frame after the header, data and working counter of a datagram were
/// written at `fo` and the frame's length was updated.
#[verifier::opaque]
spec fn after_header(s1: Seq<u8>, fo: int, index: u8, cmd: int, adp: int, ado: int, data: Seq<u8>) -> Seq<u8> {
    let n = data.len() as int;
    let s2 = put_pdu_header(s1, fo, cmd, adp, ado, index as int, n);
    let s3 = put_bytes(s2, fo + PDU_HEADER_SIZE, data);
    let s4 = s3.update(fo + PDU_HEADER_SIZE + n, 0u8).update(fo + PDU_HEADER_SIZE + n + 1, 0u8);
    let total = ec_length(s4, ETHERNET_HEADER_SIZE as int) + n + PDU_HEADER_SIZE + WKC_LENGTH;
    put_ec_length(s4, ETHERNET_HEADER_SIZE as int, total % 65536)
}

/// Writing a datagram at `fo` changes only its own bytes and the frame's
/// length, and the datagram reads back its fields.
proof fn lemma_after_header(s1: Seq<u8>, fo: int, index: u8, cmd: int, adp: int, ado: int, data: Seq<u8>)
    requires
        FIRST_PDU_OFFSET <= fo,
        fo + PDU_HEADER_SIZE + data.len() + WKC_LENGTH <= s1.len(),
        0 <= cmd < 256,
        0 <= adp < 65536,
        0 <= ado < 65536,
        data.len() < 2048,
    ensures
        ({
            let r = after_header(s1, fo, index, cmd, adp, ado, data);
            let end = fo + PDU_HEADER_SIZE + data.len() + WKC_LENGTH;
            &&& r.len() == s1.len()
            &&& forall|x: int|
                0 <= x < s1.len() && x != ETHERNET_HEADER_SIZE && x != ETHERNET_HEADER_SIZE + 1 && !(fo <= x
                    < end) ==> #[trigger] r[x] == s1[x]
            &&& pdu_index(r, fo) == index as int
            &&& pdu_command_type(r, fo) == cmd
            &&& pdu_adp(r, fo) == adp
            &&& pdu_ado(r, fo) == ado
            &&& pdu_length(r, fo) == data.len()
            &&& reply_payload(r, fo) == data
        }),
{
    reveal(after_header);
    let n = data.len() as int;
    lemma_put_pdu_header(s1, fo, cmd, adp, ado, index as int, n);
    let s2 = put_pdu_header(s1, fo, cmd, adp, ado, index as int, n);
    let s3 = put_bytes(s2, fo + PDU_HEADER_SIZE, data);
    let s4 = s3.update(fo + PDU_HEADER_SIZE + n, 0u8).update(fo + PDU_HEADER_SIZE + n + 1, 0u8);
    let r = after_header(s1, fo, index, cmd, adp, ado, data);
    let end = fo + PDU_HEADER_SIZE + n + WKC_LENGTH;
    assert forall|x: int|
        0 <= x < s1.len() && x != ETHERNET_HEADER_SIZE && x != ETHERNET_HEADER_SIZE + 1 && !(fo <= x
            < end) implies #[trigger] r[x] == s1[x] by {
        assert(s2[x] == s1[x]);
        assert(s3[x] == s2[x]);
        assert(s4[x] == s3[x]);
    }
    assert forall|j: int| 0 <= j < PDU_HEADER_SIZE implies #[trigger] r[fo + j] == s2[fo + j] by {
        assert(s3[fo + j] == s2[fo + j]);
        assert(s4[fo + j] == s3[fo + j]);
    }
    let j0 = 0int;
    let j1 = 1int;
    let j2 = 2int;
    let j3 = 3int;
    let j4 = 4int;
    let j5 = 5int;
    let j6 = 6int;
    let j7 = 7int;
    assert(r[fo + j0] == s2[fo + j0]);
    assert(r[fo + j1] == s2[fo + j1]);
    assert(r[fo + j2] == s2[fo + j2]);
    assert(r[fo + j3] == s2[fo + j3]);
    assert(r[fo + j4] == s2[fo + j4]);
    assert(r[fo + j5] == s2[fo + j5]);
    assert(r[fo + j6] == s2[fo + j6]);
    assert(r[fo + j7] == s2[fo + j7]);
    assert forall|i: int| 0 <= i < n implies #[trigger] reply_payload(r, fo)[i] == data[i] by {
        assert(s3[fo + PDU_HEADER_SIZE + i] == data[i]);
        assert(s4[fo + PDU_HEADER_SIZE + i] == s3[fo + PDU_HEADER_SIZE + i]);
    }
    assert(reply_payload(r, fo) =~= data);
}

/// The frame with the last of its first `k` datagrams marked as followed
/// by another.
spec fn mark_last(s: Seq<u8>, c: Seq<int>, k: int) -> Seq<u8> {
    if k > 0 {
        put_pdu_has_next(s, FIRST_PDU_OFFSET + c[k - 1], true)
    } else {
        s
    }
}

/// The frame's own step for the `k`th datagram: mark the last one, then
/// write the new one after it.
proof fn lemma_add_unfold(q: Seq<u8>, c: Seq<int>, t: int, k: int, s: Seq<u8>)
    requires
        laid_out(q, c, t),
        0 <= k < c.len(),
        s.len() == FIRST_PDU_OFFSET + t,
        forall|x: int| FIRST_PDU_OFFSET + c[k] <= x < s.len() ==> s[x] == 0,
        forall|i: int| 0 <= i < k ==> same_datagram(q, #[trigger] c[i], s, FIRST_PDU_OFFSET + c[i]),
    ensures
        ({
            let (index, cmd, adp, ado, data) = add_args(q, c[k]);
            let fo = FIRST_PDU_OFFSET + c[k];
            ec_add_command_spec(s, fo, index, cmd, adp, ado, data) == (
                true,
                after_header(mark_last(s, c, k), fo, index, cmd, adp, ado, data),
                FIRST_PDU_OFFSET + off_at(c, t, k + 1),
            )
        }),
{
    reveal(after_header);
    let base = FIRST_PDU_OFFSET as int;
    let o = c[k];
    let (index, cmd, adp, ado, data) = add_args(q, o);
    lemma_pdu_size_positive(q, o);
    assert(o + pdu_size(q, o) <= t);
    assert(data.len() == pdu_length(q, o));
    assert forall|i: int| 0 <= i < k implies pdu_length(s, base + #[trigger] c[i]) == pdu_length(q, c[i]) by {
        assert(same_datagram(q, c[i], s, base + c[i]));
    }
    lemma_walk(s, q, c, t, base, 0, k);
    let ch = pdu_chain_nz(s, base, s.len() as int);
    assert(ch == moved(c, 0, k, base));
    if k > 0 {
        assert(ch.last() == base + c[k - 1]);
    }
}

/// The datagrams before the `k`th keep their fields when only the mark on
/// the last of them and bytes from the `k`th on change.
proof fn lemma_keep_added(q: Seq<u8>, c: Seq<int>, t: int, k: int, s: Seq<u8>, r: Seq<u8>)
    requires
        laid_out(q, c, t),
        0 <= k < c.len(),
        s.len() == FIRST_PDU_OFFSET + t,
        r.len() == s.len(),
        forall|i: int| 0 <= i < k ==> same_datagram(q, #[trigger] c[i], s, FIRST_PDU_OFFSET + c[i]),
        forall|x: int| FIRST_PDU_OFFSET <= x < FIRST_PDU_OFFSET + c[k] ==> #[trigger] r[x] == mark_last(s, c, k)[x],
    ensures
        forall|i: int| 0 <= i < k ==> same_datagram(q, #[trigger] c[i], r, FIRST_PDU_OFFSET + c[i]),
{
    let base = FIRST_PDU_OFFSET as int;
    let s1 = mark_last(s, c, k);
    assert forall|i: int| 0 <= i < k implies same_datagram(q, #[trigger] c[i], r, base + c[i]) by {
        let p = base + c[i];
        assert(same_datagram(q, c[i], s, p));
        lemma_pdu_size_positive(s, p);
        assert(pdu_size(s, p) == pdu_size(q, c[i]));
        lemma_offsets_grow(q, c, t, i + 1, k);
        assert(c[i] + pdu_size(q, c[i]) <= c[k]);
        if k > 0 && i < k - 1 {
            lemma_offsets_grow(q, c, t, i + 1, k - 1);
            lemma_pdu_size_positive(q, c[i]);
        }
        assert forall|j: int| 0 <= j < pdu_size(s, p) && j != 7 implies #[trigger] r[p + j] == s[p + j] by {
            assert(r[p + j] == s1[p + j]);
        }
        if i == k - 1 {
            crate::frame::lemma_pdu_field_roundtrip(s, p, 0, true);
        }
        assert(r[p + 7] == s1[p + 7]);
        lemma_fields_from_bytes(s, p, r, p);
    }
}

/// The frame after the `k`th datagram of the queue was added to `s`.
spec fn next_frame(q: Seq<u8>, c: Seq<int>, k: int, s: Seq<u8>) -> Seq<u8> {
    let (index, cmd, adp, ado, data) = add_args(q, c[k]);
    after_header(mark_last(s, c, k), FIRST_PDU_OFFSET + c[k], index, cmd, adp, ado, data)
}

/// Adding the `k`th datagram of the queue to a frame that holds the ones
/// before it, each where the queue has it moved past the headers, with
/// zeros after them: the frame then holds the first `k + 1`, with zeros
/// after them.
proof fn lemma_add_next(q: Seq<u8>, c: Seq<int>, t: int, k: int, s: Seq<u8>)
    requires
        laid_out(q, c, t),
        0 <= k < c.len(),
        s.len() == FIRST_PDU_OFFSET + t,
        forall|x: int| FIRST_PDU_OFFSET + c[k] <= x < s.len() ==> s[x] == 0,
        forall|i: int| 0 <= i < k ==> same_datagram(q, #[trigger] c[i], s, FIRST_PDU_OFFSET + c[i]),
    ensures
        ({
            let r = next_frame(q, c, k, s);
            &&& r.len() == s.len()
            &&& forall|x: int| FIRST_PDU_OFFSET + off_at(c, t, k + 1) <= x < s.len() ==> r[x] == 0
            &&& forall|i: int| 0 <= i < k + 1 ==> same_datagram(q, #[trigger] c[i], r, FIRST_PDU_OFFSET + c[i])
        }),
{
    let base = FIRST_PDU_OFFSET as int;
    let o = c[k];
    let fo = base + o;
    let (index, cmd, adp, ado, data) = add_args(q, o);
    lemma_pdu_size_positive(q, o);
    assert(o + pdu_size(q, o) <= t);
    assert(data.len() == pdu_length(q, o));
    let fo2 = fo + pdu_size(q, o);
    assert(fo2 == FIRST_PDU_OFFSET + off_at(c, t, k + 1));
    let s1 = mark_last(s, c, k);
    lemma_type_codes_roundtrip(command_type_spec(pdu_command_type(q, o)), MailboxType::Other);
    assert(index as int == pdu_index(q, o));
    lemma_after_header(s1, fo, index, cmd, adp, ado, data);
    let r = after_header(s1, fo, index, cmd, adp, ado, data);
    if k > 0 {
        assert(c[k - 1] + pdu_size(q, c[k - 1]) == o);
        lemma_pdu_size_positive(q, c[k - 1]);
    }
    assert forall|x: int| fo2 <= x < s.len() implies r[x] == 0 by {
        assert(r[x] == s1[x]);
        assert(s1[x] == s[x]);
    }
    assert forall|x: int| base <= x < fo implies #[trigger] r[x] == mark_last(s, c, k)[x] by {}
    lemma_keep_added(q, c, t, k, s, r);
    assert(reply_command(r, fo) == reply_command(q, o));
    assert(same_datagram(q, o, r, fo));
}

/// Offsets later in the layout lie further on.
proof fn lemma_offsets_grow(q: Seq<u8>, c: Seq<int>, t: int, a: int, b: int)
    requires
        laid_out(q, c, t),
        0 <= a <= b <= c.len(),
    ensures
        off_at(c, t, a) <= off_at(c, t, b),
    decreases b - a,
{
    if a < b {
        lemma_pdu_size_positive(q, c[a]);
        assert(off_at(c, t, a + 1) == c[a] + pdu_size(q, c[a]));
        lemma_offsets_grow(q, c, t, a + 1, b);
    }
}

/// Building the frame from the `k`th datagram on, over a frame that holds
/// the ones before it with zeros after them, gives a frame that holds them
/// all, each where the queue has it moved past the headers.
proof fn lemma_build(q: Seq<u8>, c: Seq<int>, t: int, k: int, s: Seq<u8>)
    requires
        laid_out(q, c, t),
        0 <= k <= c.len(),
        s.len() == FIRST_PDU_OFFSET + t,
        forall|x: int| FIRST_PDU_OFFSET + off_at(c, t, k) <= x < s.len() ==> s[x] == 0,
        forall|i: int| 0 <= i < k ==> same_datagram(q, #[trigger] c[i], s, FIRST_PDU_OFFSET + c[i]),
    ensures
        ({
            let f = copy_pdus_spec(s, FIRST_PDU_OFFSET + off_at(c, t, k), q, c.subrange(k, c.len() as int)).0;
            &&& f.len() == s.len()
            &&& forall|i: int| 0 <= i < c.len() ==> same_datagram(q, #[trigger] c[i], f, FIRST_PDU_OFFSET + c[i])
        }),
    decreases c.len() - k,
{
    let rest = c.subrange(k, c.len() as int);
    if k < c.len() {
        lemma_add_unfold(q, c, t, k, s);
        lemma_add_next(q, c, t, k, s);
        let s2 = next_frame(q, c, k, s);
        assert(rest[0] == c[k]);
        assert(rest.drop_first() =~= c.subrange(k + 1, c.len() as int));
        lemma_build(q, c, t, k + 1, s2);
        assert(copy_pdus_spec(s, FIRST_PDU_OFFSET + off_at(c, t, k), q, rest) == copy_pdus_spec(
            s2,
            FIRST_PDU_OFFSET + off_at(c, t, k + 1),
            q,
            c.subrange(k + 1, c.len() as int),
        ));
    } else {
        assert(rest =~= Seq::<int>::empty());
    }
}

/// A new frame holds zeros after its headers.
proof fn lemma_init_zeros(len: nat)
    requires
        FIRST_PDU_OFFSET <= len,
    ensures
        init_spec(len).len() == len,
        forall|x: int| FIRST_PDU_OFFSET <= x < len ==> #[trigger] init_spec(len)[x] == 0,
{
}

/// The datagrams `c[j..]` of a reply, walked from the headers on, are the
/// reply's bytes from the `j`th on.
proof fn lemma_concat_moved(r: Seq<u8>, q: Seq<u8>, c: Seq<int>, t: int, j: int)
    requires
        laid_out(q, c, t),
        0 <= j <= c.len(),
        r.len() == FIRST_PDU_OFFSET + t,
        forall|i: int| 0 <= i < c.len() ==> pdu_length(r, FIRST_PDU_OFFSET + #[trigger] c[i]) == pdu_length(q, c[i]),
    ensures
        concat_pdus(r, moved(c, j, c.len() as int, FIRST_PDU_OFFSET as int)) == r.subrange(
            FIRST_PDU_OFFSET + off_at(c, t, j),
            FIRST_PDU_OFFSET + t,
        ),
    decreases c.len() - j,
{
    let base = FIRST_PDU_OFFSET as int;
    let m = moved(c, j, c.len() as int, base);
    if j < c.len() {
        let p = base + c[j];
        assert(m[0] == p);
        assert(m.drop_first() =~= moved(c, j + 1, c.len() as int, base));
        assert(pdu_length(r, p) == pdu_length(q, c[j]));
        assert(off_at(c, t, j + 1) == c[j] + pdu_size(q, c[j]));
        lemma_concat_moved(r, q, c, t, j + 1);
        lemma_pdu_size_positive(q, c[j]);
        lemma_offsets_grow(q, c, t, j + 1, c.len() as int);
        assert(r.subrange(p, p + pdu_size(r, p)) + r.subrange(base + off_at(c, t, j + 1), base + t) =~= r.subrange(
            p,
            base + t,
        ));
    } else {
        assert(m =~= Seq::<int>::empty());
        assert(r.subrange(base + t, base + t) =~= Seq::<u8>::empty());
    }
}

/// The frame that the queue `q`, filled up to `t`, goes out in.
pub open spec fn frame_of_queue(q: Seq<u8>, t: int) -> Seq<u8> {
    copy_pdus_spec(init_spec((FIRST_PDU_OFFSET + t) as nat), FIRST_PDU_OFFSET as int, q, pdu_chain_nz(q, 0, t)).0
}

/// Sending the queued datagrams and taking back a reply that carries them
/// unchanged (whatever its headers say) leaves the queue reading as it did:
/// the same datagrams at the same offsets, each with its index, length,
/// command and data. This holds where every queued datagram has data: a
/// datagram of length zero ends the walk over a frame.
pub proof fn lemma_frame_echo_keeps_queue(q: Seq<u8>, t: int, reply: Seq<u8>)
    requires
        chain_reaches(q, 0, t),
        t <= q.len(),
        forall|k: int| 0 <= k < pdu_chain(q, 0, t).len() ==> pdu_length(q, #[trigger] pdu_chain(q, 0, t)[k]) != 0,
        reply.len() == FIRST_PDU_OFFSET + t,
        forall|x: int| FIRST_PDU_OFFSET <= x < reply.len() ==> reply[x] == frame_of_queue(q, t)[x],
    ensures
        ({
            let c = pdu_chain_nz(q, 0, t);
            let bytes = concat_pdus(reply, reply_pdus(reply));
            let q2 = put_bytes(q, 0, bytes);
            &&& bytes.len() == t
            &&& pdu_chain_nz(q2, 0, t) == c
            &&& forall|k: int| 0 <= k < c.len() ==> same_datagram(q, #[trigger] c[k], q2, c[k])
        }),
{
    let base = FIRST_PDU_OFFSET as int;
    let len = (base + t) as nat;
    crate::ethercat_frame::lemma_chain_reaches_ordered(q, 0, t);
    lemma_laid_out(q, t);
    lemma_chain_nz_full(q, 0, t);
    let c = pdu_chain(q, 0, t);
    assert(pdu_chain_nz(q, 0, t) == c);
    lemma_init_zeros(len);
    let init = init_spec(len);
    assert(off_at(c, t, 0) == 0);
    lemma_build(q, c, t, 0, init);
    assert(c.subrange(0, c.len() as int) =~= c);
    let f = frame_of_queue(q, t);
    // the reply reads as the frame
    assert forall|i: int| 0 <= i < c.len() implies same_datagram(q, #[trigger] c[i], reply, base + c[i]) by {
        let p = base + c[i];
        assert(same_datagram(q, c[i], f, p));
        lemma_pdu_size_positive(q, c[i]);
        assert(pdu_size(f, p) == pdu_size(q, c[i]));
        assert(c[i] + pdu_size(q, c[i]) <= t);
        assert forall|j: int| 0 <= j < pdu_size(f, p) && j != 7 implies #[trigger] reply[p + j] == f[p + j] by {}
        assert(reply[p + 7] == f[p + 7]);
        lemma_fields_from_bytes(f, p, reply, p);
    }
    assert forall|i: int| 0 <= i < c.len() implies pdu_length(reply, base + #[trigger] c[i]) == pdu_length(q, c[i]) by {
        assert(same_datagram(q, c[i], reply, base + c[i]));
    }
    lemma_walk(reply, q, c, t, base, 0, c.len() as int);
    let pdus = reply_pdus(reply);
    assert(pdus == moved(c, 0, c.len() as int, base));
    lemma_concat_moved(reply, q, c, t, 0);
    let bytes = concat_pdus(reply, pdus);
    assert(bytes == reply.subrange(base, base + t));
    let q2 = put_bytes(q, 0, bytes);
    assert forall|x: int| 0 <= x < t implies #[trigger] q2[x] == reply[base + x] by {}
    // the queue reads as the reply
    assert forall|i: int| 0 <= i < c.len() implies same_datagram(q, #[trigger] c[i], q2, c[i]) by {
        let p = base + c[i];
        assert(same_datagram(q, c[i], reply, p));
        lemma_pdu_size_positive(q, c[i]);
        assert(pdu_size(reply, p) == pdu_size(q, c[i]));
        assert(c[i] + pdu_size(q, c[i]) <= t);
        assert forall|j: int| 0 <= j < pdu_size(reply, p) && j != 7 implies #[trigger] q2[c[i] + j] == reply[p + j] by {
            assert(q2[c[i] + j] == reply[base + (c[i] + j)]);
        }
        assert(q2[c[i] + 7] == reply[base + (c[i] + 7)]);
        lemma_fields_from_bytes(reply, p, q2, c[i]);
    }
    assert forall|i: int| 0 <= i < c.len() implies pdu_length(q2, 0 + #[trigger] c[i]) == pdu_length(q, c[i]) by {
        assert(same_datagram(q, c[i], q2, c[i]));
    }
    lemma_walk(q2, q, c, t, 0, 0, c.len() as int);
    assert(moved(c, 0, c.len() as int, 0) =~= c);
}

} // verus!
