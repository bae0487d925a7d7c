//! What becomes of a guest's transmit request, in terms of its fields.

use crate::completion::{CqPostView, CqeType, CqeView};
use crate::datapath::{total_size, DatapathError, Sge, Sqe, SqeActionView, TxMetadata, TxRxTask};
use crate::datapath::TxSegment;
use vstd::prelude::*;

verus! {

/// Whether a request is one that the device takes: a large send has a header of at most 256 bytes
/// and at least one other piece.
pub open spec fn is_taken(sqe: Sqe) -> bool {
    &&& sqe.oob is Some
    &&& sqe.sgl@.len() > 0
    &&& sqe.client_oob_in_sgl ==> sqe.sgl@.len() >= 2 && sqe.sgl@[0].size <= 256
}

/// What the backend is told of the packet of a request.
pub open spec fn head_of(segments: Seq<TxSegment>) -> TxMetadata {
    segments[0].ty->Head_0
}

/// Every request that the device takes goes to the backend piece by piece, in order and as it is,
/// behind a head; a large send that breaks the rules is completed with an error on its own queue;
/// and a request without its short out-of-band data, or without memory, stops the task.
pub proof fn requests_are_transmitted_piece_by_piece(
    task: &TxRxTask,
    slot: usize,
    sqe: Sqe,
    i: int,
)
    requires
        task.wf(),
        slot < task.sqs@.len(),
        0 <= i < sqe.sgl@.len() || sqe.sgl@.len() == 0,
    ensures
        ({
            let outcome = task.sqe_outcome(slot, sqe);
            &&& sqe.oob is None ==> outcome == Err::<SqeActionView, DatapathError>(
                DatapathError::OobTooSmall,
            )
            &&& sqe.oob is Some && sqe.sgl@.len() == 0 ==> outcome == Err::<
                SqeActionView,
                DatapathError,
            >(DatapathError::NoSgl)
            &&& sqe.oob is Some && sqe.sgl@.len() > 0 && !is_taken(sqe) ==> (outcome matches Ok(
                SqeActionView::Reject(post),
            ) && completes(post, task, slot as int, CqeType::TxGdmaErr))
            &&& is_taken(sqe) ==> (outcome matches Ok(SqeActionView::Transmit(segments)) && {
                &&& segments.len() == sqe.sgl@.len()
                &&& segments[i].gpa == sqe.sgl@[i].address
                &&& segments[i].len == sqe.sgl@[i].size
                &&& segments[i].ty is Head <==> i == 0
            })
        }),
{
}

/// Whether a post completes a request of a send queue: on the completion queue of that send queue,
/// and for that send queue.
pub open spec fn completes(post: CqPostView, task: &TxRxTask, slot: int, kind: CqeType) -> bool {
    &&& post.cq_id == task.sqs@[slot].sq_cq_id
    &&& post.wq_id == task.sqs@[slot].sq_id
    &&& post.is_send
    &&& post.cqe matches CqeView::Tx { cqe_type } && cqe_type == kind
}

/// A completion goes to the queue in the slot that it names; where there is none, to the last.
pub proof fn completions_go_to_their_queue(task: &TxRxTask, slot: int, kind: CqeType)
    requires
        task.wf(),
        0 <= slot,
    ensures
        slot < task.sqs@.len() ==> completes(task.tx_post(slot, kind), task, slot, kind),
        slot >= task.sqs@.len() ==> completes(
            task.tx_post(slot, kind),
            task,
            task.sqs@.len() - 1,
            kind,
        ),
{
}

/// The offloads that the backend is asked for are those that the request asks for, bit by bit; a
/// packet that is said to be of both versions of IP counts as the older one; segmentation is asked
/// for exactly of a large send, with the segment size of the request.
pub proof fn offloads_are_those_requested(task: &TxRxTask, slot: usize, sqe: Sqe)
    requires
        is_taken(sqe),
    ensures
        task.sqe_outcome(slot, sqe) matches Ok(SqeActionView::Transmit(segments)) && {
            let flags = head_of(segments).flags;
            let short = sqe.oob->0.short;
            &&& flags.offload_ip_header_checksum <==> short.comp_iphdr_csum
            &&& flags.offload_tcp_checksum <==> short.comp_tcp_csum
            &&& flags.offload_udp_checksum <==> short.comp_udp_csum
            &&& flags.is_ipv4 <==> short.is_outer_ipv4
            &&& flags.is_ipv6 <==> short.is_outer_ipv6 && !short.is_outer_ipv4
            &&& flags.offload_tcp_segmentation <==> sqe.client_oob_in_sgl
            &&& sqe.client_oob_in_sgl ==> head_of(segments).max_segment_size
                == sqe.gd_client_unit_data
            &&& !sqe.client_oob_in_sgl ==> head_of(segments).max_segment_size == 0
        },
{
}

/// The layout of the headers that the backend is told: the link header has 14 bytes, or 18 with an
/// injected tag; link and network header reach up to the transport header, as far as that lies
/// behind the link header and within the first 255 bytes; and the transport header of a large send
/// is what is left of its first piece.
pub proof fn headers_add_up(task: &TxRxTask, slot: usize, sqe: Sqe)
    requires
        is_taken(sqe),
    ensures
        task.sqe_outcome(slot, sqe) matches Ok(SqeActionView::Transmit(segments)) && {
            let head = head_of(segments);
            let at = sqe.oob->0.short.trans_off;
            &&& head.l2_len == if head.vlan is Some {
                18int
            } else {
                14
            }
            &&& head.l2_len <= at <= 255 ==> head.l2_len + head.l3_len == at
            &&& at < head.l2_len ==> head.l3_len == 0
            &&& at > 255 ==> head.l2_len + head.l3_len == 255
            &&& head.transport_header_offset == at
            &&& !sqe.client_oob_in_sgl ==> head.l4_len == 0
            &&& sqe.client_oob_in_sgl && sqe.sgl@[0].size >= head.l2_len + head.l3_len
                ==> head.l2_len + head.l3_len + head.l4_len == sqe.sgl@[0].size
            &&& sqe.client_oob_in_sgl && sqe.sgl@[0].size < head.l2_len + head.l3_len
                ==> head.l4_len == 0
        },
{
}

/// A tag is injected exactly where the long form is announced, is there, and asks for it, and it
/// is the tag that the long form gives.
pub proof fn tag_is_injected_on_request(task: &TxRxTask, slot: usize, sqe: Sqe)
    requires
        is_taken(sqe),
    ensures
        task.sqe_outcome(slot, sqe) matches Ok(SqeActionView::Transmit(segments)) && {
            let oob = sqe.oob->0;
            let vlan = head_of(segments).vlan;
            &&& vlan is Some <==> oob.short.long_format && oob.long is Some
                && oob.long->0.inject_vlan_pri_tag
            &&& vlan matches Some(tag) ==> {
                &&& tag.priority == oob.long->0.pcp
                &&& tag.drop_eligible_indicator == oob.long->0.dei
                &&& tag.vlan_id == oob.long->0.vlan_id
            }
        },
{
}

/// The backend is told how many pieces a packet has, how long it is altogether, and which send
/// queue it came from.
pub proof fn packet_is_told_whole(task: &TxRxTask, slot: usize, sqe: Sqe)
    requires
        is_taken(sqe),
        slot <= u32::MAX,
        sqe.sgl@.len() <= u8::MAX,
        total_size(sqe.sgl@, sqe.sgl@.len()) <= u32::MAX,
    ensures
        task.sqe_outcome(slot, sqe) matches Ok(SqeActionView::Transmit(segments)) && {
            let head = head_of(segments);
            &&& head.id == slot
            &&& head.segment_count == sqe.sgl@.len()
            &&& head.len == total_size(sqe.sgl@, sqe.sgl@.len())
        },
{
}

/// Sizes add up: a piece has its size, nothing has none, and two lists one after the other have
/// the sum of theirs.
pub proof fn sizes_add_up(a: Seq<Sge>, b: Seq<Sge>, piece: Sge)
    ensures
        total_size(seq![piece], 1) == piece.size,
        total_size(a, 0) == 0,
        total_size(a + b, (a + b).len()) == total_size(a, a.len()) + total_size(b, b.len()),
{
    reveal_with_fuel(total_size, 2);
    size_of_front(a, b, a.len());
    size_of_both(a, b, b.len());
}

proof fn size_of_front(a: Seq<Sge>, b: Seq<Sge>, n: nat)
    requires
        n <= a.len(),
    ensures
        total_size(a + b, n) == total_size(a, n),
    decreases n,
{
    if n > 0 {
        size_of_front(a, b, (n - 1) as nat);
        assert((a + b)[n - 1] == a[n - 1]);
    }
}

proof fn size_of_both(a: Seq<Sge>, b: Seq<Sge>, n: nat)
    requires
        n <= b.len(),
    ensures
        total_size(a + b, a.len() + n) == total_size(a, a.len()) + total_size(b, n),
    decreases n,
{
    if n == 0 {
        size_of_front(a, b, a.len());
    } else {
        size_of_both(a, b, (n - 1) as nat);
        assert((a + b)[a.len() + n - 1] == b[n - 1]);
    }
}

} // verus!
