//! What a guest can rely on when it configures a vport's queues and its receive path, in terms of
//! the requests that it sends and the objects that it created.

use crate::bnic::{endpoints_to_stop, first_of, first_vport_from, link_event, objects, resolve_from, torn_down};
use crate::bnic::{BnicBody, BnicError, BnicFailure, BnicRequest, BnicStatus, BnicStepView};
use crate::bnic::{NicView, PlanView, RxSteerRequest, StartView, Tristate, VportView, WqObject};
use crate::bytes::le64_at;
use crate::hwc::{slot_of, EventView, HwView, PostView, QueueType, RegionSlot};
use crate::nic_laws::{first_from_is_first, first_vport_is_first, funnel_goes_round};
use crate::nic_laws::{funnel_has_no_more, handles_in_order, resolved_entries_name_their_queues};
use crate::nic_laws::torn_down_is_a_prefix;
use vstd::prelude::*;

verus! {

/// Whether a request to configure receive negotiates coalescing.
pub open spec fn negotiates(msg_version: u16, req: RxSteerRequest) -> bool {
    msg_version >= 2 && req.rx_enable != Tristate::False
}

/// A receive configuration is refused exactly where its vport does not exist, with the status for
/// that, or where it should say whether to coalesce and does not.
pub proof fn receive_configuration_is_refused_for_two_reasons(
    nic: NicView,
    hw: HwView,
    msg_version: u16,
    req: RxSteerRequest,
)
    ensures
        ({
            let (after, ret) = nic.handle(hw, msg_version, BnicRequest::ConfigVportRx(req));
            &&& ret is Err <==> req.vport >= nic.vports.len() || (negotiates(msg_version, req)
                && req.tail@.len() == 0)
            &&& ret is Err ==> after == nic
            &&& req.vport >= nic.vports.len() ==> (ret matches Err(BnicError::Tagged(err))
                && err.status == BnicStatus::InvalidVportHandle)
            &&& req.vport < nic.vports.len() && ret is Err ==> (ret matches Err(BnicError::Plain(_)))
            &&& ret is Ok ==> ret->Ok_0 is Steer
        }),
{
}

/// On a running vport that is not being disabled, a request that carries a new indirection table
/// or a new hash key cycles the data path: the endpoint is stopped, and the data path is started
/// with what the request asks for, or that fails. A request that carries neither leaves the data
/// path alone. The link stays as it is.
pub proof fn new_table_or_key_cycles_a_running_datapath(
    nic: NicView,
    hw: HwView,
    msg_version: u16,
    req: RxSteerRequest,
)
    requires
        req.vport < nic.vports.len() <= usize::MAX,
        nic.vports[req.vport as int].tasks > 0,
        req.rx_enable != Tristate::False,
        negotiates(msg_version, req) ==> req.tail@.len() > 0,
    ensures
        ({
            let (after, ret) = nic.handle(hw, msg_version, BnicRequest::ConfigVportRx(req));
            let before = nic.vports[req.vport as int];
            let now = after.vports[req.vport as int];
            let carries = req.update_indir_tab != 0 || req.update_hashkey != 0;
            ret matches Ok(BnicStepView::Steer { vport, stop_endpoint, start, link, .. }) && {
                &&& vport == req.vport
                &&& stop_endpoint == carries
                &&& link is None
                &&& !carries ==> start is NotNeeded && now.tasks == before.tasks && now.rx
                    == before.rx && now.rss_key == before.rss_key
                &&& carries ==> now.tasks == 0 && match start {
                    StartView::NotNeeded => false,
                    StartView::Failed(err) => before.plan(req) == Err::<PlanView, BnicFailure>(err),
                    StartView::Start(plan) => before.plan(req) == Ok::<PlanView, BnicFailure>(plan),
                }
            }
        }),
{
}

/// The three bytes of a link event are the low 24 bits of the index.
proof fn link_event_names_the_vport(hw: HwView, vport: u64, up: bool)
    ensures
        tells_the_link(link_event(hw, vport, up), hw.hwc_eq_id, vport, up),
{
    let index = vport as u32;
    assert(index % 256 + 256 * ((index / 256) % 256) + 65536 * ((index / 65536) % 256) == index
        % 0x100_0000) by (bit_vector);
    assert((vport as u32) as u64 % 0x100_0000 == vport % 0x100_0000) by (bit_vector);
}

/// Enabling receive on a stopped vport starts the data path with what the request asks for, or
/// that fails, and stops nothing; the link comes up.
pub proof fn enabling_receive_starts_the_datapath(
    nic: NicView,
    hw: HwView,
    msg_version: u16,
    req: RxSteerRequest,
)
    requires
        req.vport < nic.vports.len() <= usize::MAX,
        nic.vports[req.vport as int].tasks == 0,
        req.rx_enable == Tristate::True,
        negotiates(msg_version, req) ==> req.tail@.len() > 0,
    ensures
        ({
            let (after, ret) = nic.handle(hw, msg_version, BnicRequest::ConfigVportRx(req));
            let before = nic.vports[req.vport as int];
            ret matches Ok(BnicStepView::Steer { vport, stop_endpoint, start, link, .. }) && {
                &&& vport == req.vport
                &&& !stop_endpoint
                &&& link matches Some(post) && tells_the_link(post, hw.hwc_eq_id, req.vport, true)
                &&& match start {
                    StartView::NotNeeded => false,
                    StartView::Failed(err) => before.plan(req) == Err::<PlanView, BnicFailure>(err),
                    StartView::Start(plan) => before.plan(req) == Ok::<PlanView, BnicFailure>(plan),
                }
            }
        }),
{
    link_event_names_the_vport(hw, req.vport, true);
}

/// Disabling receive stops the endpoint exactly where a data path runs, starts nothing, leaves no
/// task and no routed fence, and takes the link down.
pub proof fn disabling_receive_stops_the_datapath(
    nic: NicView,
    hw: HwView,
    msg_version: u16,
    req: RxSteerRequest,
)
    requires
        req.vport < nic.vports.len() <= usize::MAX,
        req.rx_enable == Tristate::False,
    ensures
        ({
            let (after, ret) = nic.handle(hw, msg_version, BnicRequest::ConfigVportRx(req));
            let before = nic.vports[req.vport as int];
            let now = after.vports[req.vport as int];
            &&& ret matches Ok(BnicStepView::Steer { vport, stop_endpoint, start, link, .. }) && {
                &&& vport == req.vport
                &&& stop_endpoint == (before.tasks > 0)
                &&& start is NotNeeded
                &&& link matches Some(post) && tells_the_link(post, hw.hwc_eq_id, req.vport, false)
            }
            &&& now.tasks == 0
            &&& before.tasks > 0 ==> forall|k: int|
                0 <= k < now.rx.len() ==> !(#[trigger] now.rx[k]).fence_live
            &&& now.rss_key == before.rss_key
            &&& now.cqe_coalescing == before.cqe_coalescing
        }),
{
    link_event_names_the_vport(hw, req.vport, false);
}

/// Anything but a clear yes leaves a stopped vport stopped, and the link as it is.
pub proof fn only_a_yes_starts_a_stopped_vport(
    nic: NicView,
    hw: HwView,
    msg_version: u16,
    req: RxSteerRequest,
)
    requires
        req.vport < nic.vports.len(),
        nic.vports[req.vport as int].tasks == 0,
        req.rx_enable == Tristate::Other,
        negotiates(msg_version, req) ==> req.tail@.len() > 0,
    ensures
        nic.handle(hw, msg_version, BnicRequest::ConfigVportRx(req)).1 matches Ok(
            BnicStepView::Steer { stop_endpoint, start, link, .. },
        ) && !stop_endpoint && start is NotNeeded && link is None,
{
}

/// Whether a post tells the state of a vport's link on an event queue: it names the vport by the
/// low 24 bits of its index.
pub open spec fn tells_the_link(post: PostView, eq_id: u32, vport: u64, up: bool) -> bool {
    &&& post.eq_id == eq_id
    &&& post.event matches EventView::LinkStatus { vport: named, connected } && connected == up
        && named.len() == 3 && named[0] + 256 * named[1] + 65536 * named[2] == vport % 0x100_0000
}

/// What else a receive configuration does: the coalescing setting is the byte behind the fixed
/// fields where it is negotiated, and stays otherwise; the hash key follows the request where the
/// data path starts; a second-version request is told the coalescing window, a first-version one
/// nothing; and the queues, the other vports and the handles stay.
pub proof fn receive_configuration_changes_nothing_else(
    nic: NicView,
    hw: HwView,
    msg_version: u16,
    req: RxSteerRequest,
    i: int,
    k: int,
)
    requires
        req.vport < nic.vports.len(),
        negotiates(msg_version, req) ==> req.tail@.len() > 0,
        0 <= i < nic.vports.len(),
    ensures
        ({
            let (after, ret) = nic.handle(hw, msg_version, BnicRequest::ConfigVportRx(req));
            let before = nic.vports[req.vport as int];
            let now = after.vports[req.vport as int];
            let starts = ret->Ok_0->start is Start || ret->Ok_0->start is Failed;
            &&& now.cqe_coalescing == if negotiates(msg_version, req) {
                req.tail@[0] != 0
            } else {
                before.cqe_coalescing
            }
            &&& starts && req.rss_enable == Tristate::False ==> now.rss_key is None
            &&& starts && req.rss_enable == Tristate::True && req.update_hashkey != 0
                ==> now.rss_key == Some(req.hashkey)
            &&& starts && req.rss_enable == Tristate::True && req.update_hashkey == 0
                ==> now.rss_key == before.rss_key
            &&& starts && req.rss_enable == Tristate::Other ==> now.rss_key == before.rss_key
            &&& !starts ==> now.rss_key == before.rss_key
            &&& ret->Ok_0->Steer_body == if msg_version >= 2 {
                BnicBody::RxSteer { cqe_coalescing_timeout_ns: 2048 }
            } else {
                BnicBody::Empty
            }
            &&& now.tx == before.tx
            &&& now.rx.len() == before.rx.len()
            &&& 0 <= k < now.rx.len() ==> now.rx[k].wq_obj == before.rx[k].wq_obj
                && now.rx[k].wq_id == before.rx[k].wq_id && now.rx[k].cq_id == before.rx[k].cq_id
            &&& now.mac_address == before.mac_address
            &&& now.max_queues == before.max_queues
            &&& now.serial_no == before.serial_no
            &&& i != req.vport ==> after.vports[i] == nic.vports[i]
            &&& after.vports.len() == nic.vports.len()
            &&& after.next_wq_obj == nic.next_wq_obj
            &&& after.next_filter_handle == nic.next_filter_handle
            &&& after.config == nic.config
        }),
{
}

/// Whether an entry of an indirection table names a receive queue of a vport: entry `k` of the
/// table that starts `skip` bytes behind the fixed fields.
pub open spec fn entry_names_a_queue(vport: VportView, req: RxSteerRequest, k: int) -> bool {
    exists|i: int|
        0 <= i < vport.rx.len() && (#[trigger] vport.rx[i]).wq_obj == table_entry(req, k)
}

/// Entry `k` of the indirection table of a request: the table starts at its declared offset from
/// the start of the message, and each entry has eight bytes.
pub open spec fn table_entry(req: RxSteerRequest, k: int) -> int {
    le64_at(req.tail@, req.indir_tab_offset - req.fixed_len + 8 * k)
}

/// Whether a request carries a table whose entries all lie behind its fixed fields and within it.
pub open spec fn table_lies_within(req: RxSteerRequest) -> bool {
    &&& req.fixed_len <= req.indir_tab_offset
    &&& req.indir_tab_offset - req.fixed_len + 8 * req.num_indir_entries <= req.tail@.len()
}

proof fn resolving_needs_every_entry(rx: Seq<WqObject>, bytes: Seq<u8>, count: nat, k: nat)
    requires
        k <= count,
    ensures
        resolve_from(rx, bytes, count, k) is Ok <==> (k < count ==> 8 * count <= bytes.len()) && (
        forall|m: int|
            k <= m < count ==> first_of(rx, #[trigger] le64_at(bytes, 8 * m) as u64) < rx.len()),
    decreases count - k,
{
    if k < count {
        resolving_needs_every_entry(rx, bytes, count, k + 1);
        if resolve_from(rx, bytes, count, k) is Ok {
            assert forall|m: int| k <= m < count implies first_of(
                rx,
                #[trigger] le64_at(bytes, 8 * m) as u64,
            ) < rx.len() by {
                if m == k {
                    first_from_is_first(rx, le64_at(bytes, 8 * m) as u64, 0);
                }
            }
        } else if 8 * count <= bytes.len() && forall|m: int|
            k <= m < count ==> first_of(rx, #[trigger] le64_at(bytes, 8 * m) as u64) < rx.len() {
            assert(first_of(rx, le64_at(bytes, 8 * k as int) as u64) < rx.len());
        }
    }
}

/// A handle is found exactly where an object has it.
proof fn found_where_it_is(list: Seq<WqObject>, handle: u64)
    ensures
        first_of(list, handle) < list.len() <==> exists|i: int|
            0 <= i < list.len() && (#[trigger] list[i]).wq_obj == handle,
{
    first_from_is_first(list, handle, 0);
    if first_of(list, handle) < list.len() {
        assert(list[first_of(list, handle) as int].wq_obj == handle);
    }
}

/// A data path can be started exactly where there is a pair of queues and every entry of the table
/// that the request carries, if it carries one, lies within it and names a receive queue. The
/// backend is then asked for as many queues as it supports and there are pairs, at least one, and
/// steers by a table with the hash key of the request, whose entries are the indices of the
/// queues named.
pub proof fn plan_steers_by_the_table_of_the_request(vport: VportView, req: RxSteerRequest)
    requires
        vport.rx.len() <= 0x1_0000,
    ensures
        ({
            let has_table = req.update_indir_tab != 0 && req.num_indir_entries != 0;
            let pairs = if vport.tx.len() <= vport.rx.len() {
                vport.tx.len()
            } else {
                vport.rx.len()
            };
            &&& vport.plan(req) is Ok <==> pairs > 0 && (has_table ==> table_lies_within(req)
                && forall|k: int|
                0 <= k < req.num_indir_entries ==> #[trigger] entry_names_a_queue(vport, req, k))
            &&& vport.plan(req) matches Ok(plan) ==> {
                &&& 1 <= plan.backend_queues <= pairs
                &&& plan.backend_queues == pairs || plan.backend_queues == vport.max_queues || (
                plan.backend_queues == 1 && vport.max_queues == 0)
                &&& vport.max_queues > 0 ==> plan.backend_queues <= vport.max_queues
                &&& plan.rss is Some <==> has_table
                &&& plan.rss matches Some((key, table)) ==> {
                    &&& key == req.hashkey
                    &&& table.len() == req.num_indir_entries
                    &&& forall|k: int|
                        0 <= k < table.len() ==> (#[trigger] table[k]) < vport.rx.len()
                            && vport.rx[table[k] as int].wq_obj == table_entry(req, k)
                }
            }
            &&& pairs == 0 ==> vport.plan(req) == Err::<PlanView, BnicFailure>(
                BnicFailure::QueuesNotConfigured,
            )
            &&& pairs > 0 && has_table && req.indir_tab_offset < req.fixed_len ==> vport.plan(req)
                == Err::<PlanView, BnicFailure>(BnicFailure::TableOverlapsRequest)
            &&& pairs > 0 && has_table && req.fixed_len <= req.indir_tab_offset
                && req.tail@.len() < req.indir_tab_offset - req.fixed_len ==> vport.plan(req)
                == Err::<PlanView, BnicFailure>(BnicFailure::TableBeyondRequest)
        }),
{
    let count = req.num_indir_entries as nat;
    let skip = req.indir_tab_offset - req.fixed_len;
    if vport.pairs() > 0 && req.update_indir_tab != 0 && count > 0 && 0 <= skip
        <= req.tail@.len() {
        let bytes = req.tail@.skip(skip);
        resolving_needs_every_entry(vport.rx, bytes, count, 0);
        assert forall|m: int| 0 <= m < count && 8 * count <= bytes.len() implies #[trigger] le64_at(
            bytes,
            8 * m,
        ) == table_entry(req, m) by {}
        assert forall|m: int| 0 <= m < count && 8 * count <= bytes.len() implies (first_of(
            vport.rx,
            #[trigger] le64_at(bytes, 8 * m) as u64,
        ) < vport.rx.len() <==> entry_names_a_queue(vport, req, m)) by {
            found_where_it_is(vport.rx, le64_at(bytes, 8 * m) as u64);
            assert(le64_at(bytes, 8 * m) == table_entry(req, m));
            assert(0 <= le64_at(bytes, 8 * m) <= u64::MAX);
        }
        if 8 * count <= bytes.len() && forall|k: int|
            0 <= k < count ==> #[trigger] entry_names_a_queue(vport, req, k) {
            assert forall|m: int| 0 <= m < count implies first_of(
                vport.rx,
                #[trigger] le64_at(bytes, 8 * m) as u64,
            ) < vport.rx.len() by {
                assert(entry_names_a_queue(vport, req, m));
            }
        }
        if resolve_from(vport.rx, bytes, count, 0) is Ok {
            resolved_entries_name_their_queues(vport.rx, bytes, count, 0);
            assert forall|k: int| 0 <= k < count implies #[trigger] entry_names_a_queue(
                vport,
                req,
                k,
            ) by {
                assert(first_of(vport.rx, le64_at(bytes, 8 * k) as u64) < vport.rx.len());
            }
            let table = resolve_from(vport.rx, bytes, count, 0)->Ok_0;
            assert forall|k: int| 0 <= k < table.len() implies (#[trigger] table[k])
                < vport.rx.len() && vport.rx[table[k] as int].wq_obj == table_entry(req, k) by {
                assert(le64_at(bytes, 8 * k) == table_entry(req, k));
                assert(0 <= le64_at(bytes, 8 * k) <= u64::MAX);
            }
        }
    }
}

/// The tasks of a data path: there is one per backend queue; task `j` fills the guest's receive
/// queue `j`, drains the send queues `j`, `j + n`, `j + 2n` and so on that belong to a pair and no
/// others, posts the completions of each to its own queue, and hashes under the vport's key.
pub proof fn task_serves_its_share_of_the_queues(vport: VportView, n: nat, j: int, k: nat)
    requires
        0 < n <= vport.tx.len(),
        n <= vport.rx.len(),
        0 <= j < n,
    ensures
        ({
            let tasks = vport.task_plans(n);
            let pairs = if vport.tx.len() <= vport.rx.len() {
                vport.tx.len()
            } else {
                vport.rx.len()
            };
            &&& tasks.len() == n
            &&& tasks[j].rq_id == vport.rx[j].wq_id
            &&& tasks[j].rq_cq_id == vport.rx[j].cq_id
            &&& tasks[j].rss_key == vport.rss_key
            &&& k < tasks[j].sqs.len() <==> j + k * n < pairs
            &&& k < tasks[j].sqs.len() ==> tasks[j].sqs[k as int].sq_id == vport.tx[j + k
                * n].wq_id && tasks[j].sqs[k as int].sq_cq_id == vport.tx[j + k * n].cq_id
        }),
{
    let pairs = vport.pairs();
    let sqs = vport.task_plans(n)[j].sqs;
    funnel_has_no_more(vport.tx, j as nat, pairs, n);
    if k < sqs.len() {
        assert(j + k * n <= j + (sqs.len() - 1) * n) by (nonlinear_arith)
            requires
                k < sqs.len(),
                n > 0,
        ;
    }
    if j + k * n < pairs {
        funnel_goes_round(vport.tx, j as nat, pairs, n, k);
    }
}

/// A started data path has that many tasks, and routes the fences of the receive queues that they
/// fill, of no others anew; the queues stay the same.
pub proof fn started_datapath_routes_its_fences(vport: VportView, n: nat, k: int)
    requires
        0 <= k < vport.rx.len(),
    ensures
        ({
            let now = vport.started(n);
            &&& now.tasks == n
            &&& now.rx.len() == vport.rx.len()
            &&& k < n ==> now.rx[k].fence_live
            &&& k >= n ==> now.rx[k].fence_live == vport.rx[k].fence_live
            &&& now.rx[k].wq_obj == vport.rx[k].wq_obj
            &&& now.rx[k].wq_id == vport.rx[k].wq_id
            &&& now.rx[k].cq_id == vport.rx[k].cq_id
            &&& now.tx == vport.tx
            &&& now.rss_key == vport.rss_key
            &&& now.cqe_coalescing == vport.cqe_coalescing
            &&& now.serial_no == vport.serial_no
            &&& now.mac_address == vport.mac_address
            &&& now.max_queues == vport.max_queues
        }),
{
}

/// A vport that is shut down has no task and no queue, no serial number, no coalescing and no hash
/// key; its address and its endpoint stay.
pub proof fn shut_down_vport_is_bare(nic: NicView, i: int)
    requires
        0 <= i < nic.vports.len(),
    ensures
        ({
            let now = nic.shut_down().vports[i];
            &&& now.tasks == 0
            &&& now.tx.len() == 0
            &&& now.rx.len() == 0
            &&& now.serial_no == 0
            &&& !now.cqe_coalescing
            &&& now.rss_key is None
            &&& now.mac_address == nic.vports[i].mac_address
            &&& now.max_queues == nic.vports[i].max_queues
            &&& nic.shut_down().next_wq_obj == nic.next_wq_obj
            &&& nic.shut_down().next_filter_handle == nic.next_filter_handle
            &&& nic.shut_down().config == nic.config
            &&& nic.shut_down().vports.len() == nic.vports.len()
        }),
{
}

/// Whether a handle names a whole region of a size.
pub open spec fn is_whole_region(hw: HwView, gdma_region: u64, size: u32) -> bool {
    &&& hw.regions.contains_key(slot_of(gdma_region))
    &&& hw.regions[slot_of(gdma_region)] matches RegionSlot::Ready(region) && region.len == size
}

/// Creating a work-queue object asks for its queues exactly where it is for a send or a receive
/// queue of a vport that exists, over two whole regions of the sizes given: for a work queue in
/// that direction over the first region, and for a completion queue over the second.
pub proof fn work_queue_object_needs_its_regions(
    nic: NicView,
    hw: HwView,
    msg_version: u16,
    wq_type: QueueType,
    vport: u64,
    wq: (u64, u32),
    cq: (u64, u32),
    cq_parent_qid: u32,
)
    requires
        nic.vports.len() <= usize::MAX,
    ensures
        ({
            let (after, ret) = nic.handle(
                hw,
                msg_version,
                BnicRequest::CreateWqObj {
                    wq_type,
                    vport,
                    wq_gdma_region: wq.0,
                    wq_size: wq.1,
                    cq_gdma_region: cq.0,
                    cq_size: cq.1,
                    cq_parent_qid,
                },
            );
            let directed = wq_type == QueueType::Sq || wq_type == QueueType::Rq;
            &&& after == nic
            &&& ret is Ok <==> directed && vport < nic.vports.len() && is_whole_region(
                hw,
                wq.0,
                wq.1,
            ) && is_whole_region(hw, cq.0, cq.1)
            &&& ret matches Ok(step) ==> (step matches BnicStepView::AllocQueues(alloc) && {
                &&& alloc.vport == vport
                &&& alloc.is_send == (wq_type == QueueType::Sq)
                &&& alloc.wq_gdma_region == wq.0
                &&& alloc.cq_gdma_region == cq.0
                &&& hw.regions[slot_of(wq.0)] == RegionSlot::Ready(alloc.wq_region)
                &&& hw.regions[slot_of(cq.0)] == RegionSlot::Ready(alloc.cq_region)
                &&& alloc.cq_parent_qid == cq_parent_qid
            })
            &&& !directed ==> (ret matches Err(BnicError::Tagged(err)) && err.status
                == BnicStatus::UnsupportedQueueType)
            &&& directed && vport >= nic.vports.len() ==> (ret matches Err(BnicError::Tagged(err))
                && err.status == BnicStatus::InvalidVportHandle)
            &&& directed && vport < nic.vports.len() && ret is Err ==> ret->Err_0 is Plain
        }),
{
}

/// A new object is the last of its vport in its direction, over the queues that were allocated;
/// nothing else changes but the next handle.
pub proof fn new_object_joins_its_vport(
    nic: NicView,
    vport: usize,
    is_send: bool,
    wq_id: u32,
    cq_id: u32,
    i: int,
)
    requires
        vport < nic.vports.len(),
        nic.next_wq_obj < u64::MAX,
        0 <= i < nic.vports.len(),
    ensures
        ({
            let after = nic.add_wq_obj(vport, is_send, wq_id, cq_id);
            let list = objects(nic.vports[vport as int], is_send);
            let now = objects(after.vports[vport as int], is_send);
            &&& now.len() == list.len() + 1
            &&& now.drop_last() == list
            &&& now.last().wq_obj == nic.next_wq_obj
            &&& now.last().wq_id == wq_id
            &&& now.last().cq_id == cq_id
            &&& !now.last().fence_live
            &&& objects(after.vports[vport as int], !is_send) == objects(
                nic.vports[vport as int],
                !is_send,
            )
            &&& after.vports[vport as int].tasks == nic.vports[vport as int].tasks
            &&& i != vport ==> after.vports[i] == nic.vports[i]
            &&& after.next_wq_obj == nic.next_wq_obj + 1
            &&& after.next_filter_handle == nic.next_filter_handle
        }),
{
    let after = nic.add_wq_obj(vport, is_send, wq_id, cq_id);
    let list = objects(nic.vports[vport as int], is_send);
    assert(objects(after.vports[vport as int], is_send).drop_last() =~= list);
}

/// What send and receive objects a vport has.
pub proof fn objects_are_the_queues_of_their_direction(vport: VportView)
    ensures
        objects(vport, true) == vport.tx,
        objects(vport, false) == vport.rx,
{
}

/// Destroying is refused, with the status for that, for a kind that is no work queue, and for a
/// handle that no object of that direction has.
pub proof fn unknown_objects_are_not_destroyed(
    nic: NicView,
    hw: HwView,
    msg_version: u16,
    wq_type: QueueType,
    handle: u64,
)
    ensures
        ({
            let (after, ret) = nic.handle(
                hw,
                msg_version,
                BnicRequest::DestroyWqObj { wq_type, wq_obj_handle: handle },
            );
            let is_send = wq_type == QueueType::Sq;
            &&& wq_type != QueueType::Sq && wq_type != QueueType::Rq ==> after == nic && (
            ret matches Err(BnicError::Tagged(err)) && err.status == BnicStatus::InvalidWqType)
            &&& (wq_type == QueueType::Sq || wq_type == QueueType::Rq) && (forall|i: int, k: int|
                0 <= i < nic.vports.len() && 0 <= k < objects(nic.vports[i], is_send).len() ==> (
                #[trigger] objects(nic.vports[i], is_send)[k]).wq_obj != handle) ==> after == nic
                && (ret matches Err(BnicError::Tagged(err)) && err.status
                == BnicStatus::InvalidWqHandle)
        }),
{
    let is_send = wq_type == QueueType::Sq;
    first_vport_is_first(nic.vports, is_send, handle, 0);
    let at = first_vport_from(nic.vports, is_send, handle, 0) as int;
    if at < nic.vports.len() {
        first_from_is_first(objects(nic.vports[at], is_send), handle, 0);
    }
}

/// A fence is for the queue that its handle names: it is completed on that queue's completion
/// queue, and goes to the task that fills that queue exactly where one is there to take it. A
/// handle that no receive queue has is refused, with the status for that.
pub proof fn fence_is_for_its_own_queue(
    nic: NicView,
    hw: HwView,
    msg_version: u16,
    handle: u64,
    i: int,
    k: int,
)
    requires
        handles_in_order(nic),
        nic.vports.len() <= usize::MAX,
    ensures
        ({
            let (after, ret) = nic.handle(
                hw,
                msg_version,
                BnicRequest::FenceRq { wq_obj_handle: handle },
            );
            &&& after == nic
            &&& 0 <= i < nic.vports.len() && 0 <= k < nic.vports[i].rx.len() <= usize::MAX
                && nic.vports[i].rx[k].wq_obj == handle ==> (ret matches Ok(
                BnicStepView::Fence { cq_id, wq_id, route },
            ) && {
                &&& cq_id == nic.vports[i].rx[k].cq_id
                &&& wq_id == nic.vports[i].rx[k].wq_id
                &&& route is Some <==> nic.vports[i].rx[k].fence_live
                &&& route matches Some((at, pos)) ==> at == i && pos == k
            })
            &&& (forall|m: int, p: int|
                0 <= m < nic.vports.len() && 0 <= p < nic.vports[m].rx.len() ==> (
                #[trigger] nic.vports[m].rx[p]).wq_obj != handle) ==> (ret matches Err(
                BnicError::Tagged(err),
            ) && err.status == BnicStatus::InvalidWqHandle)
        }),
{
    first_vport_is_first(nic.vports, false, handle, 0);
    let at = first_vport_from(nic.vports, false, handle, 0) as int;
    if at < nic.vports.len() {
        first_from_is_first(nic.vports[at].rx, handle, 0);
        let pos = first_of(nic.vports[at].rx, handle) as int;
        assert(nic.vports[at].rx[pos].wq_obj == handle);
        if 0 <= i < nic.vports.len() && 0 <= k < nic.vports[i].rx.len()
            && nic.vports[i].rx[k].wq_obj == handle {
            assert(objects(nic.vports[at], false)[pos].wq_obj == objects(
                nic.vports[i],
                false,
            )[k].wq_obj);
        }
    } else if 0 <= i < nic.vports.len() && 0 <= k < nic.vports[i].rx.len()
        && nic.vports[i].rx[k].wq_obj == handle {
        found_where_it_is(nic.vports[i].rx, handle);
        assert(first_of(objects(nic.vports[i], false), handle) >= objects(
            nic.vports[i],
            false,
        ).len());
    }
}

/// What the queries report: the client's vports, its configuration, the limits of its endpoints,
/// and the statistics that were asked for.
pub proof fn queries_report_the_client(
    nic: NicView,
    hw: HwView,
    msg_version: u16,
    index: u32,
    mask: u64,
)
    requires
        nic.vports.len() <= u16::MAX,
    ensures
        nic.handle(hw, msg_version, BnicRequest::QueryDevConfig) == (
            nic,
            Ok::<BnicStepView, BnicError>(
                BnicStepView::Reply(
                    BnicBody::DevConfig {
                        mana_direct: true,
                        max_num_vports: nic.vports.len() as u16,
                        bm_hostmode: if nic.config.bm_hostmode {
                            1u8
                        } else {
                            0u8
                        },
                        max_num_eqs: 64,
                        adapter_mtu: 1514,
                        adapter_link_speed_mbps: nic.config.adapter_link_speed_mbps,
                    },
                ),
            ),
        ),
        ({
            let (after, ret) = nic.handle(
                hw,
                msg_version,
                BnicRequest::QueryVportConfig { vport_index: index },
            );
            &&& after == nic
            &&& ret is Ok <==> index < nic.vports.len()
            &&& ret is Err ==> (ret matches Err(BnicError::Tagged(err)) && err.status
                == BnicStatus::InvalidVportIndex)
            &&& ret is Ok ==> (ret matches Ok(
                BnicStepView::Reply(
                    BnicBody::VportConfig {
                        max_num_sq,
                        max_num_rq,
                        num_indirection_ent,
                        mac_addr,
                        vport,
                    },
                ),
            ) && {
                &&& max_num_sq == max_num_rq
                &&& 1 <= max_num_sq <= 16
                &&& 1 <= nic.vports[index as int].max_queues <= 16 ==> max_num_sq
                    == nic.vports[index as int].max_queues
                &&& nic.vports[index as int].max_queues > 16 ==> max_num_sq == 16
                &&& num_indirection_ent == 128
                &&& mac_addr == nic.vports[index as int].mac_address
                &&& vport == index
            })
        }),
        ({
            let (after, ret) = nic.handle(hw, msg_version, BnicRequest::QueryLinkConfig);
            &&& after == nic
            &&& ret matches Ok(
                BnicStepView::Reply(
                    BnicBody::LinkConfig { qos_speed_mbps, qos_unconfigured, link_speed_mbps },
                ),
            ) && {
                &&& qos_unconfigured == 0
                &&& qos_speed_mbps == link_speed_mbps
                &&& nic.config.adapter_link_speed_mbps > 0 ==> link_speed_mbps
                    == nic.config.adapter_link_speed_mbps
                &&& nic.config.adapter_link_speed_mbps == 0 ==> link_speed_mbps == 200_000
            }
        }),
        nic.handle(hw, msg_version, BnicRequest::PfCreateVport) == (
            nic,
            Ok::<BnicStepView, BnicError>(
                BnicStepView::Reply(BnicBody::PfVport { vport_handle: 0 }),
            ),
        ),
        nic.handle(hw, msg_version, BnicRequest::QueryFilterCap) == (
            nic,
            Ok::<BnicStepView, BnicError>(
                BnicStepView::Reply(
                    BnicBody::FilterCap { max_num_filters: 1, max_num_rx_objects: 64 },
                ),
            ),
        ),
        nic.handle(hw, msg_version, BnicRequest::QueryStats { requested_statistics: mask }) == (
            nic,
            Ok::<BnicStepView, BnicError>(
                BnicStepView::Reply(BnicBody::Stats { reported_statistics: mask }),
            ),
        ),
        nic.handle(hw, msg_version, BnicRequest::QueryPhyStat { requested_statistics: mask }) == (
            nic,
            Ok::<BnicStepView, BnicError>(
                BnicStepView::Reply(BnicBody::PhyStats { reported_statistics: mask }),
            ),
        ),
{
}

/// What the commands do that name a vport and nothing else: they are refused exactly where the
/// vport does not exist, and a serial number is kept by the vport that it is for.
pub proof fn vport_commands_need_their_vport(
    nic: NicView,
    hw: HwView,
    msg_version: u16,
    vport: u64,
    serial_no: u32,
    i: int,
)
    requires
        0 <= i < nic.vports.len(),
    ensures
        ({
            let (after, ret) = nic.handle(hw, msg_version, BnicRequest::ConfigVportTx { vport });
            &&& after == nic
            &&& vport < nic.vports.len() ==> ret == Ok::<BnicStepView, BnicError>(
                BnicStepView::Reply(
                    BnicBody::VportTx { tx_vport_offset: 0, short_form_allowed: 1 },
                ),
            )
            &&& vport >= nic.vports.len() ==> (ret matches Err(BnicError::Tagged(err))
                && err.status == BnicStatus::InvalidVportHandle)
        }),
        ({
            let (after, ret) = nic.handle(
                hw,
                msg_version,
                BnicRequest::Vtl2QueryFilterState { vport },
            );
            &&& after == nic
            &&& vport < nic.vports.len() ==> ret == Ok::<BnicStepView, BnicError>(
                BnicStepView::Reply(BnicBody::FilterState { direction_to_vtl0: 0 }),
            )
            &&& vport >= nic.vports.len() ==> (ret matches Err(BnicError::Plain(_)))
        }),
        ({
            let (after, ret) = nic.handle(
                hw,
                msg_version,
                BnicRequest::PfCreateFilter { vport_handle: vport },
            );
            &&& ret is Ok <==> vport < nic.vports.len()
            &&& vport >= nic.vports.len() ==> after == nic && (ret matches Err(
                BnicError::Tagged(err),
            ) && err.status == BnicStatus::InvalidVportHandle)
        }),
        ({
            let (after, ret) = nic.handle(
                hw,
                msg_version,
                BnicRequest::Vtl2AssignSerialNumber { vport, serial_no },
            );
            &&& vport < nic.vports.len() ==> ret == Ok::<BnicStepView, BnicError>(
                BnicStepView::Reply(BnicBody::Empty),
            ) && after.vports[vport as int].serial_no == serial_no
                && after.vports[vport as int].tasks == nic.vports[vport as int].tasks
                && after.vports[vport as int].rx == nic.vports[vport as int].rx
                && after.vports[vport as int].tx == nic.vports[vport as int].tx
            &&& i != vport ==> after.vports[i] == nic.vports[i]
            &&& vport >= nic.vports.len() ==> after == nic && (ret matches Err(BnicError::Plain(_)))
        }),
{
}

/// A command that the device does not know is told apart from one that failed.
pub proof fn unknown_commands_are_told_apart(
    nic: NicView,
    hw: HwView,
    msg_version: u16,
    msg_type: u32,
)
    ensures
        nic.handle(hw, msg_version, BnicRequest::Unsupported { msg_type }).1 matches Err(
            BnicError::Tagged(err),
        ) && err.status == BnicStatus::CommandUnsupported,
        nic.handle(hw, msg_version, BnicRequest::Truncated).1 matches Err(BnicError::Plain(_)),
        nic.handle(hw, msg_version, BnicRequest::Vtl2MoveFilter).1 matches Err(BnicError::Plain(_)),
        nic.handle(hw, msg_version, BnicRequest::Unsupported { msg_type }).0 == nic,
        nic.handle(hw, msg_version, BnicRequest::Truncated).0 == nic,
        nic.handle(hw, msg_version, BnicRequest::Vtl2MoveFilter).0 == nic,
{
}

/// A response that grew in later versions is cut to the guest's buffer; any other has to fit.
pub proof fn growing_responses_are_cut(body: BnicBody)
    ensures
        body.truncates() <==> body is DevConfig || body is RxSteer || body is Stats || body is PhyStats
            || body is LinkConfig,
{
}

/// A poll of a teardown tears down every vport whose tasks have all stopped, up to the first that
/// has not; that one loses those of its tasks that have, and the ones behind it are as they were.
pub proof fn polled_teardown_keeps_its_progress(nic: NicView, stopped: Seq<usize>, i: int)
    requires
        stopped.len() == nic.vports.len(),
        0 <= i < nic.vports.len(),
    ensures
        ({
            let after = nic.poll_shut_down(stopped);
            let reached = forall|m: int|
                0 <= m < i ==> stopped[m] >= (#[trigger] nic.vports[m]).tasks;
            &&& after.vports.len() == nic.vports.len()
            &&& reached && stopped[i] >= nic.vports[i].tasks ==> after.vports[i]
                == nic.vports[i].shut_down()
            &&& reached && stopped[i] < nic.vports[i].tasks ==> after.vports[i].tasks + stopped[i]
                == nic.vports[i].tasks && after.vports[i].rx == nic.vports[i].rx
                && after.vports[i].tx == nic.vports[i].tx
            &&& !reached ==> after.vports[i] == nic.vports[i]
            &&& after.next_wq_obj == nic.next_wq_obj
            &&& after.next_filter_handle == nic.next_filter_handle
        }),
{
    torn_down_is_a_prefix(nic.vports, stopped, 0);
    let down = torn_down(nic.vports, stopped, 0);
    if down < i {
        assert(stopped[down as int] < nic.vports[down as int].tasks);
    }
}

/// An endpoint is stopped by a shutdown exactly where the vport's data path runs.
pub proof fn running_endpoints_are_stopped(vports: Seq<VportView>, i: int)
    requires
        0 <= i < vports.len(),
    ensures
        endpoints_to_stop(vports).len() == vports.len(),
        endpoints_to_stop(vports)[i] <==> vports[i].tasks > 0,
{
}

} // verus!
