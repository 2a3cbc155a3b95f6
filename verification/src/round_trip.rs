//! What a socket gets back when the queue that a round of queuing built is
//! handed out unchanged, as a reply that carries every datagram back does.
use crate::bytes::put_bytes;
use crate::command::{Command, CommandInterfaceError};
use crate::ec_frame::pdu_chain_nz;
use crate::ethercat_frame::{
    chain_reaches, lemma_chain_append, lemma_chain_same_lengths, lemma_pdu_size_positive, pdu_chain,
};
use crate::frame::{
    command_type_code, lemma_type_codes_roundtrip, pdu_index, pdu_length, pdu_size, MailboxType,
    MAX_ETHERCAT_DATAGRAM, PDU_HEADER_SIZE, WKC_LENGTH,
};
use crate::interface::{queue_push_spec, queued_header};
use crate::socket::{
    copy_prefix, enqueue_round, first_reaching, has_command_to_send, reply_command, reply_payload,
    socket_after_replies, CommandSocket, SocketModel, SocketOption, SocketState,
};
use vstd::prelude::*;

verus! {

/// The command and data that the socket of slot `k` has queued.
spec fn slot_command(slots: Seq<SocketOption<CommandSocket>>, k: int) -> Command {
    slots[k]->Socket_0@.command->0
}

spec fn slot_data(slots: Seq<SocketOption<CommandSocket>>, k: int) -> Seq<u8> {
    slots[k]->Socket_0@.data.subrange(0, slots[k]->Socket_0@.data_length as int)
}

/// The first `total` bytes of `s` hold, in slot order, one datagram of
/// non-zero length for each socket before slot `i` with a command to send,
/// under the slot's index, with its command and data.
spec fn queued_through(slots: Seq<SocketOption<CommandSocket>>, i: int, s: Seq<u8>, total: int) -> bool {
    let c = pdu_chain(s, 0, total);
    &&& chain_reaches(s, 0, total)
    &&& forall|q: int|
        0 <= q < c.len() ==> pdu_length(s, #[trigger] c[q]) != 0 && pdu_index(s, c[q]) < i && c[q]
            + pdu_size(s, c[q]) <= total
    &&& forall|q1: int, q2: int|
        0 <= q1 < q2 < c.len() ==> pdu_index(s, #[trigger] c[q1]) < pdu_index(s, #[trigger] c[q2])
    &&& forall|k: int|
        0 <= k < i && has_command_to_send(#[trigger] slots[k]) ==> exists|q: int|
            0 <= q < c.len() && pdu_index(s, #[trigger] c[q]) == k && reply_payload(s, c[q]) == slot_data(
                slots,
                k,
            ) && reply_command(s, c[q]) == slot_command(slots, k)
}

/// Where every datagram on the walk has a non-zero length, the walk that
/// stops at a zero length is the same walk.
pub(crate) proof fn lemma_chain_nz_full(s: Seq<u8>, a: int, b: int)
    requires
        chain_reaches(s, a, b),
        forall|q: int| 0 <= q < pdu_chain(s, a, b).len() ==> pdu_length(s, #[trigger] pdu_chain(s, a, b)[q]) != 0,
    ensures
        pdu_chain_nz(s, a, b) == pdu_chain(s, a, b),
    decreases if a < b { b - a } else { 0 },
{
    if a != b {
        lemma_pdu_size_positive(s, a);
        let next = a + pdu_size(s, a);
        let c = pdu_chain(s, a, b);
        assert(c[0] == a);
        assert forall|q: int|
            0 <= q < pdu_chain(s, next, b).len() implies pdu_length(s, #[trigger] pdu_chain(s, next, b)[q]) != 0 by {
            assert(pdu_chain(s, next, b)[q] == c[q + 1]);
        }
        lemma_chain_nz_full(s, next, b);
    }
}

/// Appending a datagram at the end of the walked bytes extends the walk by
/// it, leaves the bytes before it alone, and reads back its fields.
proof fn lemma_push_extends(
    s: Seq<u8>,
    total: int,
    cap: int,
    cmd: int,
    index: int,
    adp: int,
    ado: int,
    data: Seq<u8>,
)
    requires
        chain_reaches(s, 0, total),
        0 <= total,
        total + PDU_HEADER_SIZE + data.len() + WKC_LENGTH <= cap < s.len(),
        0 < data.len() < 2048,
        0 <= cmd < 256,
        0 <= index < 256,
        0 <= adp < 65536,
        0 <= ado < 65536,
    ensures
        ({
            let t = queue_push_spec(s, total, cmd, index, adp, ado, data);
            let end = total + PDU_HEADER_SIZE + data.len() + WKC_LENGTH;
            &&& t.len() == s.len()
            &&& forall|x: int| 0 <= x < total ==> #[trigger] t[x] == s[x]
            &&& chain_reaches(t, 0, end)
            &&& pdu_chain(t, 0, end) == pdu_chain(s, 0, total).push(total)
            &&& pdu_index(t, total) == index
            &&& pdu_length(t, total) == data.len()
            &&& pdu_size(t, total) == end - total
            &&& reply_payload(t, total) == data
            &&& reply_command(t, total) == (Command {
                c_type: crate::frame::command_type_spec(cmd),
                adp: adp as u16,
                ado: ado as u16,
            })
        }),
{
    let n = data.len() as int;
    let t = queue_push_spec(s, total, cmd, index, adp, ado, data);
    let h = queued_header(cmd, index, adp, ado, n);
    let end = total + PDU_HEADER_SIZE + n + WKC_LENGTH;
    let s1 = put_bytes(s, total, h);
    let s2 = put_bytes(s1, total + PDU_HEADER_SIZE, data);
    assert(t.len() == s.len());
    assert forall|x: int| 0 <= x < total implies #[trigger] t[x] == s[x] by {
        assert(s1[x] == s[x]);
        assert(s2[x] == s1[x]);
    }
    assert forall|x: int| 0 <= x < PDU_HEADER_SIZE implies #[trigger] t[total + x] == h[x] by {
        assert(s1[total + x] == h[x]);
        assert(s2[total + x] == s1[total + x]);
    }
    assert forall|x: int| 0 <= x < n implies #[trigger] t[total + PDU_HEADER_SIZE + x] == data[x] by {
        assert(s2[total + PDU_HEADER_SIZE + x] == data[x]);
    }
    assert(t[total + 1] == h[1]);
    assert(t[total + 6] == h[6]);
    assert(t[total + 7] == h[7]);
    assert(t[total] == h[0]);
    assert(t[total + 2] == h[2]);
    assert(t[total + 3] == h[3]);
    assert(t[total + 4] == h[4]);
    assert(t[total + 5] == h[5]);
    assert(pdu_index(t, total) == index);
    assert(pdu_length(t, total) == n);
    assert(reply_payload(t, total) =~= data);
    // The walk over the old datagrams is unchanged, and the new one ends it.
    let c = pdu_chain(s, 0, total);
    lemma_chain_within(s, 0, total);
    crate::ethercat_frame::lemma_chain_elements(s, 0, total);
    assert forall|q: int| 0 <= q < c.len() implies pdu_length(t, #[trigger] c[q]) == pdu_length(s, c[q]) by {
        lemma_pdu_size_positive(s, c[q]);
        assert(t[c[q] + 6] == s[c[q] + 6]);
        assert(t[c[q] + 7] == s[c[q] + 7]);
    }
    lemma_chain_same_lengths(s, t, 0, total);
    lemma_pdu_size_positive(t, total);
    assert(chain_reaches(t, end, end));
    assert(pdu_chain(t, end, end) =~= Seq::<int>::empty());
    assert(chain_reaches(t, total, end));
    assert(pdu_chain(t, total, end) =~= seq![total]);
    lemma_chain_append(t, 0, total, end);
    assert(pdu_chain(t, 0, end) =~= pdu_chain(s, 0, total).push(total));
}

/// Every datagram on a walk that ends at `b` lies before `b`.
pub(crate) proof fn lemma_chain_within(s: Seq<u8>, a: int, b: int)
    requires
        chain_reaches(s, a, b),
    ensures
        forall|q: int|
            0 <= q < pdu_chain(s, a, b).len() ==> #[trigger] pdu_chain(s, a, b)[q] + pdu_size(
                s,
                pdu_chain(s, a, b)[q],
            ) <= b,
    decreases if a < b { b - a } else { 0 },
{
    if a != b {
        lemma_pdu_size_positive(s, a);
        let next = a + pdu_size(s, a);
        crate::ethercat_frame::lemma_chain_reaches_ordered(s, next, b);
        lemma_chain_within(s, next, b);
        let c = pdu_chain(s, a, b);
        assert forall|q: int| 0 <= q < c.len() implies #[trigger] c[q] + pdu_size(s, c[q]) <= b by {
            if q > 0 {
                assert(c[q] == pdu_chain(s, next, b)[q - 1]);
            }
        }
    }
}

/// Each step of a round that queues keeps `queued_through` one slot further.
proof fn lemma_round_queues(
    slots: Seq<SocketOption<CommandSocket>>,
    i: int,
    s: Seq<u8>,
    total: int,
    cap: int,
)
    requires
        slots.len() <= 256,
        0 <= i <= slots.len(),
        0 <= total,
        cap < s.len(),
        cap <= MAX_ETHERCAT_DATAGRAM,
        queued_through(slots, i, s, total),
        enqueue_round(slots, i, s, total, cap).2 == Ok::<bool, CommandInterfaceError>(true),
        forall|k: int| 0 <= k < slots.len() && #[trigger] slots[k] is Socket ==> slots[k]->Socket_0.wf(),
        forall|k: int|
            0 <= k < slots.len() && has_command_to_send(#[trigger] slots[k]) ==> slots[k]->Socket_0@.data_length > 0,
    ensures
        ({
            let round = enqueue_round(slots, i, s, total, cap);
            queued_through(slots, slots.len() as int, round.0, round.1) && 0 <= round.1
        }),
    decreases slots.len() - i,
{
    if i < slots.len() {
        if has_command_to_send(slots[i]) {
            let a = slots[i]->Socket_0@;
            let cm = a.command->0;
            let len = a.data_length as int;
            let data = a.data.subrange(0, len);
            let cmd = command_type_code(cm.c_type);
            let t = queue_push_spec(s, total, cmd, i as u8 as int, cm.adp as int, cm.ado as int, data);
            let end = total + PDU_HEADER_SIZE + len + WKC_LENGTH;
            slots[i]->Socket_0.lemma_wf_length();
            assert(i as u8 as int == i);
            lemma_push_extends(s, total, cap, cmd, i, cm.adp as int, cm.ado as int, data);
            lemma_type_codes_roundtrip(cm.c_type, MailboxType::Other);
            let c = pdu_chain(s, 0, total);
            let c2 = pdu_chain(t, 0, end);
            assert(c2 == c.push(total));
            // The old datagrams read the same in the new bytes.
            assert forall|q: int| 0 <= q < c.len() implies {
                &&& pdu_index(t, #[trigger] c[q]) == pdu_index(s, c[q])
                &&& pdu_length(t, c[q]) == pdu_length(s, c[q])
                &&& reply_payload(t, c[q]) == reply_payload(s, c[q])
                &&& reply_command(t, c[q]) == reply_command(s, c[q])
            } by {
                let o = c[q];
                lemma_pdu_size_positive(s, o);
                assert(o + pdu_size(s, o) <= total);
                crate::ethercat_frame::lemma_chain_elements(s, 0, total);
                assert(t[o] == s[o]);
                assert(t[o + 1] == s[o + 1]);
                assert(t[o + 2] == s[o + 2]);
                assert(t[o + 3] == s[o + 3]);
                assert(t[o + 4] == s[o + 4]);
                assert(t[o + 5] == s[o + 5]);
                assert(t[o + 6] == s[o + 6]);
                assert(t[o + 7] == s[o + 7]);
                assert(reply_payload(t, o) =~= reply_payload(s, o));
            }
            assert(c2[c.len() as int] == total);
            assert forall|q: int| 0 <= q < c2.len() implies pdu_length(t, #[trigger] c2[q]) != 0 && pdu_index(
                t,
                c2[q],
            ) < i + 1 && c2[q] + pdu_size(t, c2[q]) <= end by {
                if q < c.len() {
                    assert(c2[q] == c[q]);
                }
            }
            assert forall|q1: int, q2: int| 0 <= q1 < q2 < c2.len() implies pdu_index(t, #[trigger] c2[q1])
                < pdu_index(t, #[trigger] c2[q2]) by {
                assert(c2[q1] == c[q1]);
                if q2 < c.len() {
                    assert(c2[q2] == c[q2]);
                }
            }
            assert forall|k: int| 0 <= k < i + 1 && has_command_to_send(#[trigger] slots[k]) implies exists|q: int|
                0 <= q < c2.len() && pdu_index(t, #[trigger] c2[q]) == k && reply_payload(t, c2[q]) == slot_data(
                    slots,
                    k,
                ) && reply_command(t, c2[q]) == slot_command(slots, k) by {
                if k < i {
                    let q = choose|q: int|
                        0 <= q < c.len() && pdu_index(s, #[trigger] c[q]) == k && reply_payload(s, c[q])
                            == slot_data(slots, k) && reply_command(s, c[q]) == slot_command(slots, k);
                    assert(c2[q] == c[q]);
                } else {
                    assert(c2[c.len() as int] == total);
                }
            }
            assert(queued_through(slots, i + 1, t, end));
            lemma_round_queues(slots, i + 1, t, end, cap);
        } else {
            lemma_round_queues(slots, i + 1, s, total, cap);
        }
    }
}

/// A socket's data, overwritten by its own first bytes, is unchanged.
proof fn lemma_copy_own_prefix(d: Seq<u8>, n: int)
    requires
        0 <= n <= d.len(),
    ensures
        copy_prefix(d, d.subrange(0, n)) == d,
{
    assert(copy_prefix(d, d.subrange(0, n)) =~= d);
}

/// Handing out the queue that a round of queuing built from an empty queue,
/// as it stands (as a reply that carries every datagram back unchanged
/// does), gives each socket whose command was queued its own command and
/// data back. This holds where the slots' indices fit the one-byte datagram
/// index and no queued command has empty data: a datagram of length zero
/// ends the walk over the queue.
pub proof fn lemma_queue_round_trip(slots: Seq<SocketOption<CommandSocket>>, buf: Seq<u8>, cap: int, k: int)
    requires
        slots.len() <= 256,
        0 <= cap < buf.len(),
        cap <= MAX_ETHERCAT_DATAGRAM,
        enqueue_round(slots, 0, buf, 0, cap).2 == Ok::<bool, CommandInterfaceError>(true),
        forall|j: int| 0 <= j < slots.len() && #[trigger] slots[j] is Socket ==> slots[j]->Socket_0.wf(),
        forall|j: int|
            0 <= j < slots.len() && has_command_to_send(#[trigger] slots[j]) ==> slots[j]->Socket_0@.data_length > 0,
        0 <= k < slots.len(),
        has_command_to_send(slots[k]),
    ensures
        ({
            let round = enqueue_round(slots, 0, buf, 0, cap);
            let a = slots[k]->Socket_0@;
            let b = socket_after_replies(
                SocketModel { state: SocketState::Receive, ..a },
                round.0,
                pdu_chain_nz(round.0, 0, round.1),
                k,
            );
            &&& b.state == SocketState::Process
            &&& b.command == a.command
            &&& b.data == a.data
            &&& b.data_length == a.data_length
        }),
{
    let round = enqueue_round(slots, 0, buf, 0, cap);
    assert(pdu_chain(buf, 0, 0) =~= Seq::<int>::empty());
    assert(queued_through(slots, 0, buf, 0));
    lemma_round_queues(slots, 0, buf, 0, cap);
    let s = round.0;
    let c = pdu_chain(s, 0, round.1);
    lemma_chain_nz_full(s, 0, round.1);
    assert(has_command_to_send(slots[k]));
    let q = choose|q: int|
        0 <= q < c.len() && pdu_index(s, #[trigger] c[q]) == k && reply_payload(s, c[q]) == slot_data(slots, k)
            && reply_command(s, c[q]) == slot_command(slots, k);
    crate::socket::lemma_first_reaching_bounds(s, c, k, 0);
    let f = first_reaching(s, c, k, 0);
    if f < q {
        assert(pdu_index(s, c[f]) < pdu_index(s, c[q]));
    }
    if f > q {
        assert(pdu_index(s, c[q]) < k);
    }
    assert(f == q);
    let a = slots[k]->Socket_0@;
    slots[k]->Socket_0.lemma_wf_length();
    lemma_copy_own_prefix(a.data, a.data_length as int);
}

} // verus!
