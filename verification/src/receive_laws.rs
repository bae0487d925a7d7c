//! What the guest is told of the packets that it receives.

use crate::completion::{CqeType, RxCompletionView};
use crate::datapath::{all_valid, completions, joined, packet_completion, run_length, scatter};
use crate::datapath::{without_ids, L4Protocol, PacketView, PostEnd, RxChecksumState, RxMetadata};
use crate::datapath::{completes_at_once, fence_step, filled_buffer, poll_order, posted_buffer, receive_posts};
use crate::datapath::{packets_at_a_time, total_size, PollSource, Sge};
use crate::rss::{rx_hash, MANA_HASH_KEY_SIZE};
use vstd::prelude::*;

verus! {

/// Checksums are reported as the backend found them: a flag of success stands for a good checksum
/// and a flag of failure for a bad one, of the IP header and of the protocol that the packet has,
/// and of nothing else. So success and failure of one kind are never told together, and what is
/// not known is not told.
pub proof fn checksums_are_told_as_found(packet: PacketView, metadata: RxMetadata)
    ensures
        ({
            let flags = packet_completion(packet, metadata).flags;
            let tcp = metadata.l4_protocol == L4Protocol::Tcp;
            let udp = metadata.l4_protocol == L4Protocol::Udp;
            &&& flags.iphdr_csum_succeed <==> metadata.ip_checksum == RxChecksumState::Good
            &&& flags.iphdr_csum_fail <==> metadata.ip_checksum == RxChecksumState::Bad
            &&& flags.tcp_csum_succeed <==> tcp && metadata.l4_checksum == RxChecksumState::Good
            &&& flags.tcp_csum_fail <==> tcp && metadata.l4_checksum == RxChecksumState::Bad
            &&& flags.udp_csum_succeed <==> udp && metadata.l4_checksum == RxChecksumState::Good
            &&& flags.udp_csum_fail <==> udp && metadata.l4_checksum == RxChecksumState::Bad
            &&& !(flags.iphdr_csum_succeed && flags.iphdr_csum_fail)
            &&& !(flags.tcp_csum_succeed && flags.tcp_csum_fail)
            &&& !(flags.udp_csum_succeed && flags.udp_csum_fail)
            &&& metadata.l4_checksum == RxChecksumState::Good ==> !flags.tcp_csum_fail
                && !flags.udp_csum_fail
        }),
{
}

/// A packet's completion tells of that packet alone: its length, its tag if it has one, the buffer
/// that it is in, and whether the buffer could hold it.
pub proof fn completion_tells_of_its_packet(packet: PacketView, metadata: RxMetadata)
    ensures
        ({
            let completion = packet_completion(packet, metadata);
            &&& completion.cqe_type == CqeType::RxTruncated <==> metadata.len > packet.len
            &&& completion.cqe_type == CqeType::RxOkay <==> metadata.len <= packet.len
            &&& completion.rx_wqe_offset == packet.wqe_offset
            &&& completion.packets.len() == 1
            &&& metadata.len <= u16::MAX ==> completion.packets[0].pkt_len == metadata.len
            &&& completion.flags.vlantag_present <==> metadata.vlan_id is Some
            &&& metadata.vlan_id matches Some(vlan_id) ==> completion.flags.vlan_id == vlan_id
            &&& metadata.vlan_id is None ==> completion.flags.vlan_id == 0
            &&& packet.hash is None ==> completion.flags.hashtype == 0
                && completion.packets[0].pkt_hash == 0
            &&& packet.hash matches Some((hashtype, value)) ==> completion.flags.hashtype
                == hashtype && completion.packets[0].pkt_hash == value
        }),
{
}

/// A frame fills a buffer from its front on: every write but the last fills its segment, and each
/// goes to the front of its segment.
pub proof fn segments_are_filled_in_turn(
    segments: Seq<Sge>,
    k: nat,
    off: nat,
    data_len: nat,
    i: int,
)
    requires
        k <= segments.len(),
        off <= data_len <= usize::MAX,
    ensures
        ({
            let writes = scatter(segments, k, off, data_len);
            &&& 0 <= i < writes.len() - 1 ==> writes[i].len == segments[k + i].size
            &&& 0 <= i < writes.len() ==> writes[i].gpa == segments[k + i].address
            &&& 0 <= i == writes.len() - 1 ==> writes[i].start + writes[i].len == data_len || (
            writes[i].len == segments[k + i].size && k + i == segments.len() - 1)
        }),
    decreases segments.len() - k,
{
    let writes = scatter(segments, k, off, data_len);
    if k < segments.len() && off < data_len {
        let len = if data_len - off <= segments[k as int].size {
            (data_len - off) as nat
        } else {
            segments[k as int].size as nat
        };
        let rest = scatter(segments, k + 1, off + len, data_len);
        segments_are_filled_in_turn(segments, k + 1, off + len, data_len, i - 1);
        assert(writes.drop_first() =~= rest);
        if i > 0 && i < writes.len() {
            assert(writes[i] == rest[i - 1]);
        }
    }
}

/// Whether a packet can share a completion with one that has these flags.
pub open spec fn can_share(packet: PacketView, first: PacketView) -> bool {
    packet.oob.cqe_type == CqeType::RxOkay && packet.oob.flags == first.oob.flags
}

proof fn run_is_maximal(
    packets: Map<usize, PacketView>,
    ids: Seq<u32>,
    start: nat,
    first: PacketView,
    count: nat,
)
    requires
        1 <= count <= 4,
        start + count <= ids.len(),
    ensures
        run_length(packets, ids, start, first.oob.flags, count) matches Some(end) ==> {
            &&& count <= end <= 4
            &&& start + end <= ids.len()
            &&& forall|k: int|
                start + count <= k < start + end ==> packets.contains_key(
                    #[trigger] ids[k] as usize,
                ) && can_share(packets[ids[k] as usize], first)
            &&& end == 4 || start + end == ids.len() || !can_share(
                packets[ids[(start + end) as int] as usize],
                first,
            )
        },
    decreases 4 - count,
{
    if start + count < ids.len() && count < 4 {
        let id = ids[(start + count) as int] as usize;
        if packets.contains_key(id) && can_share(packets[id], first) {
            run_is_maximal(packets, ids, start, first, count + 1);
        }
    }
}

/// How many buffers the next completion is for.
pub open spec fn share(packets: Map<usize, PacketView>, ids: Seq<u32>, start: nat) -> nat {
    completions(packets, ids, start, true).0[0].packets.len()
}

/// With coalescing, the next completion is for the longest run of packets, four at most, that were
/// received well and have the flags of the first; it has their flags, names the buffer of the
/// first, tells of each of them in order, and is marked as coalesced exactly where there are
/// several. A packet that was not received well has its own completion. What follows is for the
/// buffers behind the run.
pub proof fn next_completion_is_for_a_maximal_run(
    packets: Map<usize, PacketView>,
    ids: Seq<u32>,
    start: nat,
)
    requires
        all_valid(packets),
        start < ids.len(),
        completions(packets, ids, start, true).2 == PostEnd::Done,
        packets[ids[start as int] as usize].oob.cqe_type == CqeType::RxOkay,
    ensures
        ({
            let (list, left, how) = completions(packets, ids, start, true);
            let first = packets[ids[start as int] as usize];
            let n = share(packets, ids, start);
            &&& list.len() > 0
            &&& 1 <= n <= 4
            &&& start + n <= ids.len()
            &&& list[0].flags == first.oob.flags
            &&& list[0].rx_wqe_offset == first.oob.rx_wqe_offset
            &&& list[0].cqe_type == CqeType::RxCoalesced4 <==> n > 1
            &&& list[0].cqe_type == CqeType::RxOkay <==> n == 1
            &&& forall|k: int|
                0 <= k < n ==> can_share(packets[#[trigger] ids[start + k] as usize], first)
                    && list[0].packets[k] == packets[ids[start + k] as usize].oob.packets[0]
            &&& n == 4 || start + n == ids.len() || !can_share(
                packets[ids[(start + n) as int] as usize],
                first,
            ) || ids[(start + n) as int] == ids[start as int]
        }),
{
    let id0 = ids[start as int] as usize;
    let first = packets[id0];
    assert(packets.contains_key(id0));
    assert(first.valid());
    let rest = packets.remove(id0);
    run_is_maximal(rest, ids, start, first, 1);
    let count = run_length(rest, ids, start, first.oob.flags, 1)->0;
    let list = completions(packets, ids, start, true).0;
    assert(list[0] == joined(first.oob, rest, ids, start, count));
    if count > 1 {
        assert(list[0].packets.len() == count);
    }
    assert forall|k: int| 0 <= k < count implies can_share(
        packets[#[trigger] ids[start + k] as usize],
        first,
    ) && list[0].packets[k] == packets[ids[start + k] as usize].oob.packets[0] by {
        if k > 0 {
            assert(rest.contains_key(ids[start + k] as usize));
        }
    }
    if count < 4 && start + count < ids.len() && ids[(start + count) as int] != ids[start as int] {
        assert(rest[ids[(start + count) as int] as usize] == packets[ids[(start
            + count) as int] as usize]);
    }
}

/// A packet that was not received well is completed on its own, as it is, and so is every packet
/// without coalescing.
pub proof fn others_are_completed_on_their_own(
    packets: Map<usize, PacketView>,
    ids: Seq<u32>,
    start: nat,
    coalescing: bool,
)
    requires
        start < ids.len(),
        packets.contains_key(ids[start as int] as usize),
        !coalescing || packets[ids[start as int] as usize].oob.cqe_type != CqeType::RxOkay,
    ensures
        ({
            let (list, left, how) = completions(packets, ids, start, coalescing);
            let id = ids[start as int] as usize;
            let (more, end, last) = completions(packets.remove(id), ids, start + 1, coalescing);
            &&& list.len() == more.len() + 1
            &&& list[0] == packets[id].oob
            &&& list.drop_first() == more
            &&& left == end
            &&& how == last
        }),
{
    let id = ids[start as int] as usize;
    let rest = packets.remove(id);
    assert(without_ids(rest, ids, start + 1, start + 1) == (rest, true));
    let more = completions(rest, ids, start + 1, coalescing).0;
    assert(completions(packets, ids, start, coalescing).0 =~= seq![packets[id].oob] + more);
    assert(completions(packets, ids, start, coalescing).0.drop_first() =~= more);
}

/// A buffer that the backend was not given ends the batch: nothing is completed from there on.
pub proof fn unknown_buffer_ends_the_batch(
    packets: Map<usize, PacketView>,
    ids: Seq<u32>,
    start: nat,
    coalescing: bool,
)
    requires
        start < ids.len(),
        !packets.contains_key(ids[start as int] as usize),
    ensures
        ({
            let (list, left, how) = completions(packets, ids, start, coalescing);
            list.len() == 0 && left == packets && how == PostEnd::InvalidId
        }),
{
}

/// Receive completions go to the completion queue of the receive queue, one by one and in order.
pub proof fn receive_completions_go_to_their_queue(
    list: Seq<RxCompletionView>,
    cq_id: u32,
    wq_id: u32,
    i: int,
)
    requires
        0 <= i < list.len(),
    ensures
        ({
            let posts = receive_posts(list, cq_id, wq_id);
            &&& posts.len() == list.len()
            &&& posts[i].cq_id == cq_id
            &&& posts[i].wq_id == wq_id
            &&& !posts[i].is_send
            &&& posts[i].cqe matches crate::completion::CqeView::Rx(completion) && completion
                == list[i]
        }),
{
}

/// A fence is completed by a bare completion: no flags, no packets, no buffer.
pub proof fn fence_completion_is_bare()
    ensures
        ({
            let fence = RxCompletionView::fence();
            &&& fence.cqe_type == CqeType::RxObjectFence
            &&& fence.packets.len() == 0
            &&& fence.rx_wqe_offset == 0
            &&& !fence.flags.iphdr_csum_succeed && !fence.flags.iphdr_csum_fail
            &&& !fence.flags.tcp_csum_succeed && !fence.flags.tcp_csum_fail
            &&& !fence.flags.udp_csum_succeed && !fence.flags.udp_csum_fail
            &&& !fence.flags.vlantag_present && fence.flags.vlan_id == 0
            &&& fence.flags.hashtype == 0
        }),
{
}

/// What is polled first: a fence before anything else, so that traffic cannot starve it; receive
/// buffers, as long as there are fewer than 256, before any send queue; the send queues in their
/// order; and the backend last. Nothing is polled twice.
pub proof fn fences_are_polled_first(held: u32, queues: nat, i: int)
    requires
        queues <= usize::MAX,
        0 <= i < queues,
    ensures
        ({
            let order = poll_order(held, queues);
            let front = if held < 256 {
                2int
            } else {
                1
            };
            &&& order.len() == front + queues + 1
            &&& order[0] == PollSource::Fence
            &&& held < 256 ==> order[1] == PollSource::Rq
            &&& order[front + i] == PollSource::Sq(i as usize)
            &&& order.last() == PollSource::Backend
        }),
{
}

/// A transmit is completed at once exactly where the backend is done with it or took nothing.
pub proof fn transmits_are_completed_when_done(sync: bool, count: usize)
    ensures
        sync ==> completes_at_once(sync, count),
        count == 0 ==> completes_at_once(sync, count),
        !sync && count > 0 ==> !completes_at_once(sync, count),
{
}

/// A posted buffer has the guest's segments and position, holds as much as they do, and tells of
/// nothing yet.
pub proof fn posted_buffer_is_blank(sgl: Seq<Sge>, wqe_offset: u32)
    requires
        total_size(sgl, sgl.len()) <= u32::MAX,
    ensures
        ({
            let packet = posted_buffer(sgl, wqe_offset);
            &&& packet.segments == sgl
            &&& packet.wqe_offset == wqe_offset
            &&& packet.len == total_size(sgl, sgl.len())
            &&& packet.hash is None
            &&& packet.oob.packets.len() == 0
            &&& packet.oob.cqe_type == CqeType::Unset
            &&& packet.valid()
        }),
{
}

/// A frame that is written into a buffer and then completed is told with the hash of its flow
/// under the vport's key, and with none where the vport has no key, or the frame is not hashed.
/// The buffer itself stays.
pub proof fn written_frame_is_told_with_its_hash(
    packet: PacketView,
    frame: Seq<u8>,
    key: Option<[u8; MANA_HASH_KEY_SIZE]>,
    metadata: RxMetadata,
)
    ensures
        ({
            let filled = filled_buffer(packet, frame, key);
            let completion = packet_completion(filled, metadata);
            &&& key is None || rx_hash(frame, key->0@) is None ==> completion.flags.hashtype == 0
                && completion.packets[0].pkt_hash == 0
            &&& key is Some ==> (rx_hash(frame, key->0@) matches Some((hashtype, value))
                ==> completion.flags.hashtype == hashtype && completion.packets[0].pkt_hash
                == value)
            &&& filled.segments == packet.segments
            &&& filled.len == packet.len
            &&& filled.wqe_offset == packet.wqe_offset
        }),
{
}

/// Until the backend has nothing left, a fence posts what the buffers that it had ready tell, and
/// then itself, alone.
pub proof fn fence_posts_the_ready_receives_first(
    packets: Map<usize, PacketView>,
    ids: Seq<u32>,
    coalescing: bool,
)
    ensures
        ids.len() > 0 ==> fence_step(packets, ids, coalescing) == completions(
            packets,
            ids,
            0,
            coalescing,
        ).0,
        ids.len() == 0 ==> fence_step(packets, ids, coalescing).len() == 1 && fence_step(
            packets,
            ids,
            coalescing,
        )[0].cqe_type == CqeType::RxObjectFence,
{
}

/// With coalescing the backend is asked for as many packets as one completion can tell of, and
/// without for one.
pub proof fn batches_fit_a_completion()
    ensures
        packets_at_a_time(true) == 4,
        packets_at_a_time(false) == 1,
{
}

} // verus!
