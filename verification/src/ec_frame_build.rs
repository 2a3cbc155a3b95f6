//! What the command interface's frame holds after `init` and a run of
//! `add_command` calls: the datagrams one after another from offset 16,
//! each with the command, addresses, index and payload it was given.
use crate::ec_frame::{ec_add_command_spec, pdu_chain_nz, pdus_fit};
use crate::ethercat_frame::{
    chain_reaches, init_spec, lemma_chain_append, lemma_chain_elements, lemma_chain_same_lengths,
    lemma_pdu_size_positive, lemma_put_pdu_header, pdu_chain, put_pdu_header, FIRST_PDU_OFFSET,
};
use crate::frame::{
    ec_length, pdu_ado, pdu_adp, pdu_command_type, pdu_index, pdu_length, pdu_size, put_ec_length,
    put_pdu_has_next, ETHERNET_HEADER_SIZE, PDU_HEADER_SIZE, WKC_LENGTH,
};
use crate::bytes::put_bytes;
use crate::round_trip::lemma_chain_within;
use vstd::prelude::*;

verus! {

/// A datagram to add: command code, adp, ado, payload and index.
pub type DatagramRequest = (u8, u16, u16, Seq<u8>, u8);

/// Outcome of adding the datagrams `reqs` in turn with `add_command` to the
/// frame `(s, fo)`, stopping at the first that does not go in.
pub open spec fn ec_add_commands_spec(s: Seq<u8>, fo: int, reqs: Seq<DatagramRequest>) -> (bool, Seq<u8>, int)
    decreases reqs.len(),
{
    if reqs.len() == 0 {
        (true, s, fo)
    } else {
        let (cmd, adp, ado, data, index) = reqs[0];
        let (ok, s1, fo1) = ec_add_command_spec(s, fo, index, cmd as int, adp as int, ado as int, data);
        if !ok {
            (false, s1, fo1)
        } else {
            ec_add_commands_spec(s1, fo1, reqs.drop_first())
        }
    }
}

/// The offsets of the datagrams `reqs` laid one after another from `start`.
pub open spec fn request_offsets(start: int, reqs: Seq<DatagramRequest>) -> Seq<int>
    decreases reqs.len(),
{
    if reqs.len() == 0 {
        Seq::empty()
    } else {
        seq![start] + request_offsets(start + PDU_HEADER_SIZE + reqs[0].3.len() + WKC_LENGTH, reqs.drop_first())
    }
}

/// The datagram at `o` of `s` carries the request `r`: its command,
/// addresses, index, length and payload.
pub open spec fn holds_request(s: Seq<u8>, o: int, r: DatagramRequest) -> bool {
    &&& pdu_command_type(s, o) == r.0
    &&& pdu_adp(s, o) == r.1
    &&& pdu_ado(s, o) == r.2
    &&& pdu_length(s, o) == r.3.len()
    &&& s.subrange(o + PDU_HEADER_SIZE, o + PDU_HEADER_SIZE + r.3.len()) == r.3
    &&& pdu_index(s, o) == r.4
}

/// The datagram at `o` reads the same in `s` and `t`.
pub open spec fn same_fields(s: Seq<u8>, t: Seq<u8>, o: int) -> bool {
    &&& pdu_command_type(t, o) == pdu_command_type(s, o)
    &&& pdu_adp(t, o) == pdu_adp(s, o)
    &&& pdu_ado(t, o) == pdu_ado(s, o)
    &&& pdu_length(t, o) == pdu_length(s, o)
    &&& t.subrange(o + PDU_HEADER_SIZE, o + PDU_HEADER_SIZE + pdu_length(s, o)) == s.subrange(
        o + PDU_HEADER_SIZE,
        o + PDU_HEADER_SIZE + pdu_length(s, o),
    )
    &&& pdu_index(t, o) == pdu_index(s, o)
}

/// A frame whose datagrams, each with data, fill `16..fo`, with zeros after
/// them.
pub open spec fn built(s: Seq<u8>, fo: int) -> bool {
    &&& FIRST_PDU_OFFSET <= fo <= s.len()
    &&& chain_reaches(s, FIRST_PDU_OFFSET as int, fo)
    &&& forall|q: int|
        0 <= q < pdu_chain(s, FIRST_PDU_OFFSET as int, fo).len() ==> pdu_length(
            s,
            #[trigger] pdu_chain(s, FIRST_PDU_OFFSET as int, fo)[q],
        ) != 0
    &&& forall|x: int| fo <= x < s.len() ==> #[trigger] s[x] == 0
}

/// Requests that go in as datagrams of their own: some data, and a length
/// that the 11-bit length field holds.
pub open spec fn requests_ok(reqs: Seq<DatagramRequest>) -> bool {
    forall|i: int| 0 <= i < reqs.len() ==> 0 < #[trigger] reqs[i].3.len() < 2048
}

/// The walk over the whole buffer stops where the datagrams end: at a
/// header that lies outside the buffer or at zeros.
proof fn lemma_walk_stops(s: Seq<u8>, a: int, fo: int)
    requires
        chain_reaches(s, a, fo),
        fo <= s.len(),
        forall|q: int| 0 <= q < pdu_chain(s, a, fo).len() ==> pdu_length(s, #[trigger] pdu_chain(s, a, fo)[q]) != 0,
        forall|x: int| fo <= x < s.len() ==> #[trigger] s[x] == 0,
    ensures
        pdu_chain_nz(s, a, s.len() as int) == pdu_chain(s, a, fo),
    decreases if a < fo { fo - a } else { 0 },
{
    if a == fo {
        if 0 <= fo && fo + PDU_HEADER_SIZE <= s.len() {
            assert(s[fo + 6] == 0 && s[fo + 7] == 0);
        }
        assert(pdu_chain_nz(s, fo, s.len() as int) =~= Seq::<int>::empty());
        assert(pdu_chain(s, fo, fo) =~= Seq::<int>::empty());
    } else {
        lemma_pdu_size_positive(s, a);
        let next = a + pdu_size(s, a);
        let c = pdu_chain(s, a, fo);
        assert(c[0] == a);
        assert(pdu_length(s, a) != 0);
        assert forall|q: int|
            0 <= q < pdu_chain(s, next, fo).len() implies pdu_length(s, #[trigger] pdu_chain(s, next, fo)[q]) != 0 by {
            assert(pdu_chain(s, next, fo)[q] == c[q + 1]);
        }
        lemma_walk_stops(s, next, fo);
    }
}

/// Each datagram of a walk ends before the ones after it begin.
proof fn lemma_chain_sorted(s: Seq<u8>, off: int, end: int)
    ensures
        forall|i: int, j: int|
            0 <= i < j < pdu_chain(s, off, end).len() ==> #[trigger] pdu_chain(s, off, end)[i] + pdu_size(
                s,
                pdu_chain(s, off, end)[i],
            ) <= #[trigger] pdu_chain(s, off, end)[j],
    decreases if off < end { end - off } else { 0 },
{
    if 0 <= off && off + PDU_HEADER_SIZE <= s.len() && off < end {
        lemma_pdu_size_positive(s, off);
        let next = off + pdu_size(s, off);
        lemma_chain_sorted(s, next, end);
        lemma_chain_elements(s, next, end);
        let c = pdu_chain(s, off, end);
        let t = pdu_chain(s, next, end);
        assert forall|i: int, j: int| 0 <= i < j < c.len() implies #[trigger] c[i] + pdu_size(s, c[i]) <= #[trigger] c[j] by {
            assert(c[j] == t[j - 1]);
            if i > 0 {
                assert(c[i] == t[i - 1]);
            }
        }
    }
}

/// Adding one request to a built frame appends it at the free offset and
/// leaves the datagrams before it reading as they did.
#[verifier::rlimit(100)]
proof fn lemma_ec_add_step(s: Seq<u8>, fo: int, r: DatagramRequest)
    requires
        built(s, fo),
        0 < r.3.len() < 2048,
        ec_add_command_spec(s, fo, r.4, r.0 as int, r.1 as int, r.2 as int, r.3).0,
    ensures
        ({
            let (_, s2, fo2) = ec_add_command_spec(s, fo, r.4, r.0 as int, r.1 as int, r.2 as int, r.3);
            let c = pdu_chain(s, FIRST_PDU_OFFSET as int, fo);
            &&& s2.len() == s.len()
            &&& fo2 == fo + PDU_HEADER_SIZE + r.3.len() + WKC_LENGTH
            &&& built(s2, fo2)
            &&& pdu_chain(s2, FIRST_PDU_OFFSET as int, fo2) == c.push(fo)
            &&& holds_request(s2, fo, r)
            &&& forall|q: int| 0 <= q < c.len() ==> same_fields(s, s2, #[trigger] c[q])
        }),
{
    let base = FIRST_PDU_OFFSET as int;
    let (cmd, adp, ado, data, index) = r;
    let n = data.len() as int;
    let c = pdu_chain(s, base, fo);
    lemma_walk_stops(s, base, fo);
    lemma_chain_within(s, base, fo);
    lemma_chain_elements(s, base, fo);
    lemma_chain_sorted(s, base, fo);
    let chain = pdu_chain_nz(s, base, s.len() as int);
    assert(chain == c);
    let s1 = if c.len() > 0 {
        put_pdu_has_next(s, c.last(), true)
    } else {
        s
    };
    if c.len() > 0 {
        assert(c.last() == c[c.len() - 1]);
    }
    let s2h = put_pdu_header(s1, fo, cmd as int, adp as int, ado as int, index as int, n);
    lemma_put_pdu_header(s1, fo, cmd as int, adp as int, ado as int, index as int, n);
    let s3 = put_bytes(s2h, fo + PDU_HEADER_SIZE, data);
    let s4 = s3.update(fo + PDU_HEADER_SIZE + n, 0u8).update(fo + PDU_HEADER_SIZE + n + 1, 0u8);
    let total = ec_length(s4, ETHERNET_HEADER_SIZE as int) + n + PDU_HEADER_SIZE + WKC_LENGTH;
    let s5 = put_ec_length(s4, ETHERNET_HEADER_SIZE as int, total % 65536);
    let fo2 = fo + PDU_HEADER_SIZE + n + WKC_LENGTH;
    assert(ec_add_command_spec(s, fo, index, cmd as int, adp as int, ado as int, data) == (true, s5, fo2));
    assert(s5.len() == s.len());
    // bytes from the first datagram on, before the new one
    assert forall|k: int| base <= k < fo implies #[trigger] s5[k] == s1[k] by {
        assert(s4[k] == s2h[k]);
        assert(s3[k] == s2h[k]);
    }
    // the new datagram
    assert forall|k: int| fo <= k < fo + PDU_HEADER_SIZE implies #[trigger] s5[k] == s2h[k] by {
        assert(s3[k] == s2h[k]);
    }
    assert(s5.subrange(fo + PDU_HEADER_SIZE, fo + PDU_HEADER_SIZE + n) =~= data);
    assert(pdu_command_type(s5, fo) == cmd);
    assert(pdu_index(s5, fo) == index);
    assert(pdu_adp(s5, fo) == pdu_adp(s2h, fo));
    assert(pdu_ado(s5, fo) == pdu_ado(s2h, fo));
    assert(pdu_length(s5, fo) == pdu_length(s2h, fo));
    assert(holds_request(s5, fo, r));
    // the bytes after it stay zero
    assert forall|x: int| fo2 <= x < s5.len() implies #[trigger] s5[x] == 0 by {
        assert(s3[x] == s2h[x]);
        assert(s2h[x] == s1[x]);
        assert(s1[x] == s[x]);
    }
    // the datagrams before it
    assert forall|q: int| 0 <= q < c.len() implies same_fields(s, s5, #[trigger] c[q]) by {
        let o = c[q];
        lemma_pdu_size_positive(s, o);
        assert(o + pdu_size(s, o) <= fo);
        assert(base <= o);
        if c.len() > 0 && o == c.last() {
            crate::frame::lemma_pdu_field_roundtrip(s, o, 0, true);
            assert(s5[o + 6] == s[o + 6]);
            assert(s5[o + 7] == put_pdu_has_next(s, o, true)[o + 7]);
        } else {
            if c.len() > 0 {
                assert(q < c.len() - 1);
                assert(c[q] + pdu_size(s, c[q]) <= c[c.len() - 1]);
            }
            assert(s5[o + 7] == s[o + 7]);
        }
        assert forall|k: int| o <= k < o + pdu_size(s, o) && k != o + 7 implies #[trigger] s5[k] == s[k] by {
            assert(s5[k] == s1[k]);
        }
        assert(s5[o] == s[o]);
        assert(s5[o + 1] == s[o + 1]);
        assert(s5[o + 2] == s[o + 2] && s5[o + 3] == s[o + 3]);
        assert(s5[o + 4] == s[o + 4] && s5[o + 5] == s[o + 5]);
        assert(s5[o + 6] == s[o + 6]);
        let len = pdu_length(s, o);
        assert(s5.subrange(o + PDU_HEADER_SIZE, o + PDU_HEADER_SIZE + len) =~= s.subrange(
            o + PDU_HEADER_SIZE,
            o + PDU_HEADER_SIZE + len,
        ));
    }
    // the walk
    assert forall|q: int| 0 <= q < c.len() implies pdu_length(s5, #[trigger] c[q]) == pdu_length(s, c[q]) by {
        assert(same_fields(s, s5, c[q]));
    }
    lemma_chain_same_lengths(s, s5, base, fo);
    lemma_pdu_size_positive(s5, fo);
    assert(fo + pdu_size(s5, fo) == fo2);
    assert(chain_reaches(s5, fo2, fo2));
    assert(chain_reaches(s5, fo, fo2));
    assert(pdu_chain(s5, fo2, fo2) =~= Seq::<int>::empty());
    assert(pdu_chain(s5, fo, fo2) =~= seq![fo]);
    lemma_chain_append(s5, base, fo, fo2);
    assert(pdu_chain(s5, base, fo2) =~= c.push(fo));
    assert forall|q: int|
        0 <= q < pdu_chain(s5, base, fo2).len() implies pdu_length(s5, #[trigger] pdu_chain(s5, base, fo2)[q])
        != 0 by {
        if q < c.len() {
            assert(pdu_chain(s5, base, fo2)[q] == c[q]);
            assert(same_fields(s, s5, c[q]));
        } else {
            assert(pdu_chain(s5, base, fo2)[q] == fo);
        }
    }
}

/// Adding requests that all go in appends them one after another and
/// leaves the datagrams before them reading as they did.
proof fn lemma_ec_adds(s: Seq<u8>, fo: int, reqs: Seq<DatagramRequest>)
    requires
        built(s, fo),
        requests_ok(reqs),
        ec_add_commands_spec(s, fo, reqs).0,
    ensures
        ({
            let (_, s2, fo2) = ec_add_commands_spec(s, fo, reqs);
            let c = pdu_chain(s, FIRST_PDU_OFFSET as int, fo);
            let offs = request_offsets(fo, reqs);
            &&& s2.len() == s.len()
            &&& built(s2, fo2)
            &&& pdu_chain(s2, FIRST_PDU_OFFSET as int, fo2) == c + offs
            &&& offs.len() == reqs.len()
            &&& forall|i: int| 0 <= i < reqs.len() ==> holds_request(s2, #[trigger] offs[i], reqs[i])
            &&& forall|q: int| 0 <= q < c.len() ==> same_fields(s, s2, #[trigger] c[q])
        }),
    decreases reqs.len(),
{
    let c = pdu_chain(s, FIRST_PDU_OFFSET as int, fo);
    if reqs.len() == 0 {
        assert(request_offsets(fo, reqs) =~= Seq::<int>::empty());
        assert(c + Seq::<int>::empty() =~= c);
        assert forall|q: int| 0 <= q < c.len() implies same_fields(s, s, #[trigger] c[q]) by {}
    } else {
        let r = reqs[0];
        assert(0 < reqs[0].3.len() < 2048);
        lemma_ec_add_step(s, fo, r);
        let (_, s1, fo1) = ec_add_command_spec(s, fo, r.4, r.0 as int, r.1 as int, r.2 as int, r.3);
        let rest = reqs.drop_first();
        assert forall|i: int| 0 <= i < rest.len() implies 0 < #[trigger] rest[i].3.len() < 2048 by {
            assert(rest[i] == reqs[i + 1]);
        }
        lemma_ec_adds(s1, fo1, rest);
        let (_, s2, fo2) = ec_add_commands_spec(s1, fo1, rest);
        let c1 = c.push(fo);
        let offs = request_offsets(fo, reqs);
        let offs1 = request_offsets(fo1, rest);
        assert(offs == seq![fo] + offs1);
        assert(c1 + offs1 =~= c + offs);
        assert forall|i: int| 0 <= i < reqs.len() implies holds_request(s2, #[trigger] offs[i], reqs[i]) by {
            if i == 0 {
                assert(c1[c.len() as int] == fo);
                assert(same_fields(s1, s2, c1[c.len() as int]));
                assert(holds_request(s1, fo, r));
                assert(s2.subrange(fo + PDU_HEADER_SIZE, fo + PDU_HEADER_SIZE + r.3.len()) == s1.subrange(
                    fo + PDU_HEADER_SIZE,
                    fo + PDU_HEADER_SIZE + r.3.len(),
                ));
            } else {
                assert(offs[i] == offs1[i - 1]);
                assert(reqs[i] == rest[i - 1]);
            }
        }
        assert forall|q: int| 0 <= q < c.len() implies same_fields(s, s2, #[trigger] c[q]) by {
            assert(c1[q] == c[q]);
            assert(same_fields(s1, s2, c1[q]));
            assert(same_fields(s, s1, c[q]));
        }
    }
}

/// Law: after `init` on a buffer of `len` bytes and `add_command` calls
/// with the requests `reqs` that all go in, each with some data and a
/// length below 2048, the walk over the whole buffer (what
/// `iter_dlpdu_offsets` and `iter_dlpdu` yield) finds exactly one datagram
/// per request, the first at 16 and each next one 10 header bytes, its
/// payload and 2 working counter bytes after the one before; each carries
/// its request's command, addresses, index, length and payload, and each
/// lies inside the buffer.
pub proof fn lemma_init_then_add_commands(len: nat, reqs: Seq<DatagramRequest>)
    requires
        FIRST_PDU_OFFSET <= len,
        requests_ok(reqs),
        ec_add_commands_spec(init_spec(len), FIRST_PDU_OFFSET as int, reqs).0,
    ensures
        ({
            let (_, s, fo) = ec_add_commands_spec(init_spec(len), FIRST_PDU_OFFSET as int, reqs);
            let offs = request_offsets(FIRST_PDU_OFFSET as int, reqs);
            &&& s.len() == len
            &&& pdu_chain_nz(s, FIRST_PDU_OFFSET as int, len as int) == offs
            &&& pdus_fit(s, FIRST_PDU_OFFSET as int, len as int)
            &&& forall|i: int| 0 <= i < reqs.len() ==> holds_request(s, #[trigger] offs[i], reqs[i])
        }),
{
    let base = FIRST_PDU_OFFSET as int;
    let s0 = init_spec(len);
    crate::ethercat_frame::lemma_init_wf(len);
    assert(pdu_chain(s0, base, base) =~= Seq::<int>::empty());
    assert forall|x: int| base <= x < s0.len() implies #[trigger] s0[x] == 0 by {}
    assert(built(s0, base));
    lemma_ec_adds(s0, base, reqs);
    let (_, s, fo) = ec_add_commands_spec(s0, base, reqs);
    let offs = request_offsets(base, reqs);
    assert(Seq::<int>::empty() + offs =~= offs);
    lemma_walk_stops(s, base, fo);
    lemma_chain_within(s, base, fo);
    assert forall|i: int|
        0 <= i < pdu_chain_nz(s, base, len as int).len() implies #[trigger] pdu_chain_nz(s, base, len as int)[i]
        + pdu_size(s, pdu_chain_nz(s, base, len as int)[i]) <= s.len() by {
        assert(pdu_chain_nz(s, base, len as int)[i] == pdu_chain(s, base, fo)[i]);
    }
}

} // verus!
