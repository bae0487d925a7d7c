//! What holds of the network client across its commands.

use crate::bnic::{first_from, first_of, first_vport_from, funnel, link_event, objects};
use crate::bnic::{new_nic, resolve_from, response_bytes_spec, tagged, torn_down};
use crate::bnic::{with_objects, wq_direction, BnicConfig, VportConfig};
use crate::bnic::{BnicBody, BnicError, BnicFailure, BnicRequest, BnicStatus, BnicStepView, NicView};
use crate::bnic::{RxSteerRequest, SqChannel, StartView, Tristate, VportView, WqObject};
use crate::bnic::GDMA_MESSAGE_V2;
use crate::bytes::le64_at;
use crate::hwc::{HwView, QueueType};
use vstd::prelude::*;

verus! {

/// The first object with a handle is one that has it, and none before it has.
pub proof fn first_from_is_first(list: Seq<WqObject>, handle: u64, i: nat)
    requires
        i <= list.len(),
    ensures
        i <= first_from(list, handle, i) <= list.len(),
        first_from(list, handle, i) < list.len() ==> list[first_from(
            list,
            handle,
            i,
        ) as int].wq_obj == handle,
        forall|k: int|
            i <= k < first_from(list, handle, i) ==> #[trigger] list[k].wq_obj != handle,
    decreases list.len() - i,
{
    if i < list.len() && list[i as int].wq_obj != handle {
        first_from_is_first(list, handle, i + 1);
    }
}

/// Every byte of a response behind its body is zero, and a body that is cut keeps its front.
pub proof fn response_is_the_body_and_zeroes(room: nat, body: Seq<u8>, truncates: bool)
    requires
        response_bytes_spec(room, body, truncates) is Some,
    ensures
        ({
            let bytes = response_bytes_spec(room, body, truncates)->0;
            &&& bytes.len() == room
            &&& forall|i: int|
                0 <= i < room ==> #[trigger] bytes[i] == if i < body.len() {
                    body[i]
                } else {
                    0
                }
        }),
{
}

/// A new work-queue object has a handle that no other object has, on any vport and in either
/// direction; the handle is not zero, and all handles keep to what was given out.
pub proof fn new_wq_obj_handle_is_fresh(
    nic: NicView,
    vport: usize,
    is_send: bool,
    wq_id: u32,
    cq_id: u32,
)
    requires
        nic.handles_given_out(),
        0 < nic.next_wq_obj < u64::MAX,
        vport < nic.vports.len(),
    ensures
        forall|i: int, dir: bool, k: int|
            0 <= i < nic.vports.len() && 0 <= k < objects(nic.vports[i], dir).len() ==> (
            #[trigger] objects(nic.vports[i], dir)[k]).wq_obj != nic.next_wq_obj,
        nic.add_wq_obj(vport, is_send, wq_id, cq_id).handles_given_out(),
        nic.add_wq_obj(vport, is_send, wq_id, cq_id).next_wq_obj > nic.next_wq_obj,
{
    let after = nic.add_wq_obj(vport, is_send, wq_id, cq_id);
    assert forall|i: int, dir: bool, k: int|
        0 <= i < after.vports.len() && 0 <= k < objects(after.vports[i], dir).len() implies 0 < (
    #[trigger] objects(after.vports[i], dir)[k]).wq_obj < after.next_wq_obj by {
        let before = objects(nic.vports[i], dir);
        if k < before.len() {
            assert(objects(after.vports[i], dir)[k] == before[k]);
        }
    }
}

/// The first vport with an object is one that has it, and none before it has.
pub proof fn first_vport_is_first(vports: Seq<VportView>, is_send: bool, handle: u64, i: nat)
    requires
        i <= vports.len(),
    ensures
        ({
            let found = first_vport_from(vports, is_send, handle, i);
            &&& i <= found <= vports.len()
            &&& found < vports.len() ==> first_of(objects(vports[found as int], is_send), handle)
                < objects(vports[found as int], is_send).len()
            &&& forall|k: int|
                i <= k < found ==> first_of(#[trigger] objects(vports[k], is_send), handle)
                    >= objects(vports[k], is_send).len()
        }),
    decreases vports.len() - i,
{
    if i < vports.len() && first_of(objects(vports[i as int], is_send), handle) >= objects(
        vports[i as int],
        is_send,
    ).len() {
        first_vport_is_first(vports, is_send, handle, i + 1);
    }
}

/// Handles keep to what was given out whatever command is serviced.
pub proof fn commands_keep_handles_given_out(
    nic: NicView,
    hw: HwView,
    msg_version: u16,
    req: BnicRequest,
)
    requires
        nic.handles_given_out(),
    ensures
        nic.handle(hw, msg_version, req).0.handles_given_out(),
{
    let after = nic.handle(hw, msg_version, req).0;
    if let BnicRequest::DestroyWqObj { wq_type, wq_obj_handle } = req {
        if let Some(is_send) = wq_direction(wq_type) {
            let at = first_vport_from(nic.vports, is_send, wq_obj_handle, 0) as int;
            first_vport_is_first(nic.vports, is_send, wq_obj_handle, 0);
            assert forall|i: int, dir: bool, k: int|
                0 <= i < after.vports.len() && 0 <= k < objects(
                    after.vports[i],
                    dir,
                ).len() implies 0 < (#[trigger] objects(after.vports[i], dir)[k]).wq_obj
                < after.next_wq_obj by {
                let before = objects(nic.vports[i], dir);
                let list = objects(after.vports[i], dir);
                let pos = first_of(before, wq_obj_handle) as int;
                if list == before {
                    assert(list[k] == before[k]);
                } else if k < pos {
                    assert(list[k] == before[k]);
                } else {
                    assert(list[k] == before[k + 1]);
                }
            }
        }
    } else {
        assert forall|i: int, dir: bool, k: int|
            0 <= i < after.vports.len() && 0 <= k < objects(after.vports[i], dir).len() implies 0
            < (#[trigger] objects(after.vports[i], dir)[k]).wq_obj < after.next_wq_obj by {
            assert(objects(after.vports[i], dir)[k].wq_obj == objects(nic.vports[i], dir)[k].wq_obj);
        }
    }
}

/// Starting a data path and tearing vports down keep handles to what was given out.
pub proof fn tasks_keep_handles_given_out(
    nic: NicView,
    vport: usize,
    backend_queues: nat,
    stopped: Seq<usize>,
)
    requires
        nic.handles_given_out(),
        vport < nic.vports.len(),
    ensures
        nic.with_vport(
            vport as int,
            nic.vports[vport as int].started(backend_queues),
        ).handles_given_out(),
        nic.shut_down().handles_given_out(),
        nic.poll_shut_down(stopped).handles_given_out(),
{
    let started = nic.with_vport(vport as int, nic.vports[vport as int].started(backend_queues));
    assert forall|i: int, dir: bool, k: int|
        0 <= i < started.vports.len() && 0 <= k < objects(started.vports[i], dir).len() implies 0
        < (#[trigger] objects(started.vports[i], dir)[k]).wq_obj < started.next_wq_obj by {
        assert(objects(started.vports[i], dir)[k].wq_obj == objects(nic.vports[i], dir)[k].wq_obj);
    }
    let polled = nic.poll_shut_down(stopped);
    assert forall|i: int, dir: bool, k: int|
        0 <= i < polled.vports.len() && 0 <= k < objects(polled.vports[i], dir).len() implies 0 < (
    #[trigger] objects(polled.vports[i], dir)[k]).wq_obj < polled.next_wq_obj by {
        assert(objects(polled.vports[i], dir)[k] == objects(nic.vports[i], dir)[k]);
    }
}

/// An object that was created can be destroyed by its handle while the data path is stopped: the
/// queues that are freed are the ones it was created over, and the other objects stay.
pub proof fn create_then_destroy_wq_obj(
    nic: NicView,
    vport: usize,
    is_send: bool,
    wq_id: u32,
    cq_id: u32,
)
    requires
        nic.handles_given_out(),
        0 < nic.next_wq_obj < u64::MAX,
        vport < nic.vports.len(),
        nic.vports[vport as int].tasks == 0,
    ensures
        ({
            let wq_type = if is_send {
                QueueType::Sq
            } else {
                QueueType::Rq
            };
            let created = nic.add_wq_obj(vport, is_send, wq_id, cq_id);
            let (destroyed, ret) = created.destroy_wq_obj(wq_type, nic.next_wq_obj);
            &&& ret == Ok::<BnicStepView, BnicError>(
                BnicStepView::FreeQueues { is_send, wq_id, cq_id },
            )
            &&& destroyed.vports == nic.vports
            &&& destroyed.destroy_wq_obj(wq_type, nic.next_wq_obj).1 == Err::<
                BnicStepView,
                BnicError,
            >(tagged(BnicStatus::InvalidWqHandle, BnicFailure::QueueDoesNotExist))
        }),
{
    let wq_type = if is_send {
        QueueType::Sq
    } else {
        QueueType::Rq
    };
    let handle = nic.next_wq_obj;
    let created = nic.add_wq_obj(vport, is_send, wq_id, cq_id);
    let (destroyed, ret) = created.destroy_wq_obj(wq_type, handle);
    let list = objects(created.vports[vport as int], is_send);
    let before = objects(nic.vports[vport as int], is_send);
    first_vport_is_first(created.vports, is_send, handle, 0);
    let at = first_vport_from(created.vports, is_send, handle, 0) as int;
    first_from_is_first(list, handle, 0);
    assert(list[before.len() as int].wq_obj == handle);
    assert forall|k: int| 0 <= k < before.len() implies #[trigger] list[k].wq_obj != handle by {
        assert(list[k] == before[k]);
    }
    assert(first_of(list, handle) == before.len());
    if at < vport {
        first_from_is_first(objects(created.vports[at], is_send), handle, 0);
        assert(objects(created.vports[at], is_send) == objects(nic.vports[at], is_send));
    }
    if at > vport {
        assert(first_of(objects(created.vports[vport as int], is_send), handle) >= list.len());
    }
    assert(at == vport);
    assert(list.remove(before.len() as int) =~= before);
    assert(destroyed.vports =~= nic.vports);
    first_vport_is_first(nic.vports, is_send, handle, 0);
    let again = first_vport_from(nic.vports, is_send, handle, 0) as int;
    if again < nic.vports.len() {
        first_from_is_first(objects(nic.vports[again], is_send), handle, 0);
    }
}

/// A resolved indirection table has an entry per bucket, and each entry is the index of the first
/// receive queue with the handle that the guest named.
pub proof fn resolved_entries_name_their_queues(
    rx: Seq<WqObject>,
    bytes: Seq<u8>,
    count: nat,
    k: nat,
)
    requires
        k <= count,
        resolve_from(rx, bytes, count, k) is Ok,
        rx.len() <= 0x1_0000,
    ensures
        ({
            let table = resolve_from(rx, bytes, count, k)->Ok_0;
            &&& table.len() == count - k
            &&& forall|i: int|
                0 <= i < table.len() ==> (#[trigger] table[i]) < rx.len()
                    && rx[table[i] as int].wq_obj == le64_at(bytes, 8 * (k + i)) as u64
        }),
    decreases count - k,
{
    if k < count {
        resolved_entries_name_their_queues(rx, bytes, count, k + 1);
        let handle = le64_at(bytes, 8 * k as int) as u64;
        first_from_is_first(rx, handle, 0);
        let table = resolve_from(rx, bytes, count, k)->Ok_0;
        let rest = resolve_from(rx, bytes, count, k + 1)->Ok_0;
        assert forall|i: int| 0 <= i < table.len() implies (#[trigger] table[i]) < rx.len()
            && rx[table[i] as int].wq_obj == le64_at(bytes, 8 * (k + i)) as u64 by {
            if i > 0 {
                assert(table[i] == rest[i - 1]);
            }
        }
    }
}

/// The `k`-th send queue of a funnel is the one `k` rounds further on.
pub proof fn funnel_goes_round(tx: Seq<WqObject>, i: nat, n: nat, step: nat, k: nat)
    requires
        step > 0,
        n <= tx.len(),
        i + k * step < n,
    ensures
        k < funnel(tx, i, n, step).len(),
        funnel(tx, i, n, step)[k as int] == (SqChannel {
            sq_id: tx[(i + k * step) as int].wq_id,
            sq_cq_id: tx[(i + k * step) as int].cq_id,
        }),
    decreases k,
{
    if k > 0 {
        assert((k - 1) * step + step == k * step) by (nonlinear_arith)
            requires
                k > 0,
        ;
        funnel_goes_round(tx, i + step, n, step, (k - 1) as nat);
        assert(funnel(tx, i, n, step)[k as int] == funnel(tx, i + step, n, step)[k - 1]);
    } else {
        assert(0 * step == 0) by (nonlinear_arith);
    }
}

/// Every send queue of a pair is drained by a task, however few queues the backend has: queue `i`
/// by the task `i % backend_queues`, as its `i / backend_queues`-th.
pub proof fn every_send_queue_is_drained(vport: VportView, backend_queues: nat, i: nat)
    requires
        0 < backend_queues <= vport.pairs(),
        i < vport.pairs(),
    ensures
        ({
            let task = vport.task_plans(backend_queues)[(i % backend_queues) as int];
            let k = (i / backend_queues) as int;
            &&& i % backend_queues < backend_queues
            &&& k < task.sqs.len()
            &&& task.sqs[k] == (SqChannel {
                sq_id: vport.tx[i as int].wq_id,
                sq_cq_id: vport.tx[i as int].cq_id,
            })
        }),
{
    let j = i % backend_queues;
    let k = i / backend_queues;
    assert(j + k * backend_queues == i && j < backend_queues) by (nonlinear_arith)
        requires
            j == i % backend_queues,
            k == i / backend_queues,
            backend_queues > 0,
    ;
    funnel_goes_round(vport.tx, j, vport.pairs(), backend_queues, k);
}

/// A funnel holds no more than its share: it has a queue for each round that stays below `n`.
pub proof fn funnel_has_no_more(tx: Seq<WqObject>, i: nat, n: nat, step: nat)
    requires
        step > 0,
    ensures
        i < n ==> i + (funnel(tx, i, n, step).len() - 1) * step < n,
        i >= n ==> funnel(tx, i, n, step).len() == 0,
    decreases
            if i < n {
                n - i
            } else {
                0
            },
{
    if i < n {
        funnel_has_no_more(tx, i + step, n, step);
        let rest = funnel(tx, i + step, n, step).len();
        assert(funnel(tx, i, n, step).len() == rest + 1);
        if rest == 0 {
            assert(0 * step == 0) by (nonlinear_arith);
        } else {
            assert(i + rest * step == i + step + (rest - 1) * step) by (nonlinear_arith)
                requires
                    rest > 0,
            ;
        }
    }
}

/// Turning receive off reports the link down, turning it on reports the link up, and a new table
/// or key on a running port leaves the link alone.
pub proof fn link_follows_receive(
    nic: NicView,
    hw: HwView,
    msg_version: u16,
    req: RxSteerRequest,
)
    requires
        nic.config_rx(hw, msg_version, req).1 is Ok,
    ensures
        nic.config_rx(hw, msg_version, req).1->Ok_0 matches BnicStepView::Steer { link, .. } && {
            let running = nic.vports[req.vport as int].tasks > 0;
            link == if req.rx_enable == Tristate::False {
                Some(link_event(hw, req.vport, false))
            } else if req.rx_enable == Tristate::True && !running {
                Some(link_event(hw, req.vport, true))
            } else {
                None
            }
        },
{
}

/// The backend is asked for at least one queue and for no more than the guest has pairs of queues
/// and the backend supports, where it supports any.
pub proof fn planned_queues_fit_the_pairs(
    nic: NicView,
    hw: HwView,
    msg_version: u16,
    req: RxSteerRequest,
)
    requires
        nic.vports.len() <= usize::MAX,
    ensures
        nic.config_rx(hw, msg_version, req).1 matches Ok(
            BnicStepView::Steer { vport, start: StartView::Start(plan), .. },
        ) ==> {
            let after = nic.config_rx(hw, msg_version, req).0;
            &&& vport < after.vports.len()
            &&& 0 < plan.backend_queues <= after.vports[vport as int].pairs()
            &&& plan.backend_queues <= nic.vports[vport as int].max_queues || plan.backend_queues
                == 1
        },
{
}

/// A change of the coalescing setting alone leaves a running data path as it is.
pub proof fn coalescing_toggle_keeps_the_datapath(
    nic: NicView,
    hw: HwView,
    msg_version: u16,
    req: RxSteerRequest,
)
    requires
        req.vport < nic.vports.len(),
        nic.vports[req.vport as int].tasks > 0,
        msg_version >= GDMA_MESSAGE_V2,
        req.rx_enable == Tristate::True,
        req.update_indir_tab == 0,
        req.update_hashkey == 0,
        req.tail@.len() > 0,
    ensures
        ({
            let (after, ret) = nic.config_rx(hw, msg_version, req);
            &&& after == nic.with_vport(
                req.vport as int,
                VportView {
                    cqe_coalescing: req.tail@[0] != 0,
                    ..nic.vports[req.vport as int]
                },
            )
            &&& ret matches Ok(step) && (step matches BnicStepView::Steer {
                stop_endpoint,
                start,
                ..
            } && !stop_endpoint && start is NotNeeded)
        }),
{
}

/// Enabling receive with hashing and a key has the tasks hash under that key; turning hashing off
/// has them hash no more.
pub proof fn enabling_rss_arms_the_hash(
    nic: NicView,
    hw: HwView,
    msg_version: u16,
    req: RxSteerRequest,
    backend_queues: nat,
    j: int,
)
    requires
        req.vport < nic.vports.len(),
        nic.vports[req.vport as int].tasks == 0,
        req.rx_enable == Tristate::True,
        nic.config_rx(hw, msg_version, req).1 is Ok,
        0 <= j < backend_queues,
    ensures
        ({
            let after = nic.config_rx(hw, msg_version, req).0.vports[req.vport as int];
            let task = after.task_plans(backend_queues)[j];
            &&& req.rss_enable == Tristate::True && req.update_hashkey != 0 ==> task.rss_key
                == Some(req.hashkey)
            &&& req.rss_enable == Tristate::False ==> task.rss_key is None
        }),
{
}

/// The vports that a poll leaves torn down have no task left, and the first that it does not has
/// one that has not stopped.
pub proof fn torn_down_is_a_prefix(vports: Seq<VportView>, stopped: Seq<usize>, i: nat)
    requires
        i <= vports.len(),
    ensures
        ({
            let down = torn_down(vports, stopped, i);
            &&& i <= down <= vports.len()
            &&& down < vports.len() ==> stopped[down as int] < vports[down as int].tasks
            &&& forall|k: int|
                i <= k < down ==> stopped[k] >= (#[trigger] vports[k]).tasks
        }),
    decreases vports.len() - i,
{
    if i < vports.len() && stopped[i as int] >= vports[i as int].tasks {
        torn_down_is_a_prefix(vports, stopped, i + 1);
    }
}

/// Tearing the client down poll by poll, whenever its tasks stop, ends where tearing it down at
/// once does: a poll that leaves every vport torn down leaves the client shut down, any other
/// leads there still, and a client that is shut down stays so.
pub proof fn polled_teardown_ends_in_shutdown(nic: NicView, stopped: Seq<usize>)
    requires
        stopped.len() == nic.vports.len(),
    ensures
        torn_down(nic.vports, stopped, 0) == nic.vports.len() ==> nic.poll_shut_down(stopped)
            == nic.shut_down(),
        nic.poll_shut_down(stopped).shut_down() == nic.shut_down(),
        torn_down(nic.shut_down().vports, stopped, 0) == nic.vports.len(),
        nic.shut_down().shut_down() == nic.shut_down(),
{
    let after = nic.poll_shut_down(stopped);
    torn_down_is_a_prefix(nic.vports, stopped, 0);
    torn_down_is_a_prefix(nic.shut_down().vports, stopped, 0);
    if torn_down(nic.vports, stopped, 0) == nic.vports.len() {
        assert(after.vports =~= nic.shut_down().vports);
    }
    assert(after.shut_down().vports =~= nic.shut_down().vports);
    assert(nic.shut_down().shut_down().vports =~= nic.shut_down().vports);
}

/// Whether a vport's fences are routed only while it has tasks to take them; send queues take no
/// fences.
pub open spec fn fences_have_tasks(vport: VportView) -> bool {
    &&& forall|k: int| 0 <= k < vport.tx.len() ==> !(#[trigger] vport.tx[k]).fence_live
    &&& vport.tasks == 0 ==> forall|k: int|
        0 <= k < vport.rx.len() ==> !(#[trigger] vport.rx[k]).fence_live
}

/// Whether that holds of every vport.
pub open spec fn all_fences_have_tasks(nic: NicView) -> bool {
    forall|i: int| 0 <= i < nic.vports.len() ==> fences_have_tasks(#[trigger] nic.vports[i])
}

/// No command leaves a fence routed to a task that is gone.
pub proof fn commands_keep_fences_with_tasks(
    nic: NicView,
    hw: HwView,
    msg_version: u16,
    req: BnicRequest,
)
    requires
        all_fences_have_tasks(nic),
    ensures
        all_fences_have_tasks(nic.handle(hw, msg_version, req).0),
{
    let after = nic.handle(hw, msg_version, req).0;
    if let BnicRequest::DestroyWqObj { wq_type, wq_obj_handle } = req {
        if let Some(is_send) = wq_direction(wq_type) {
            first_vport_is_first(nic.vports, is_send, wq_obj_handle, 0);
        }
    }
    assert forall|i: int| 0 <= i < after.vports.len() implies fences_have_tasks(
        #[trigger] after.vports[i],
    ) by {
        assert(fences_have_tasks(nic.vports[i]));
    }
}

/// Neither do a new work-queue object, a started data path and a teardown.
pub proof fn queues_and_tasks_keep_fences_with_tasks(
    nic: NicView,
    vport: usize,
    is_send: bool,
    ids: (u32, u32),
    backend_queues: nat,
    stopped: Seq<usize>,
)
    requires
        all_fences_have_tasks(nic),
        vport < nic.vports.len(),
        0 < backend_queues,
        stopped.len() == nic.vports.len(),
    ensures
        all_fences_have_tasks(nic.add_wq_obj(vport, is_send, ids.0, ids.1)),
        all_fences_have_tasks(
            nic.with_vport(vport as int, nic.vports[vport as int].started(backend_queues)),
        ),
        all_fences_have_tasks(nic.shut_down()),
        all_fences_have_tasks(nic.poll_shut_down(stopped)),
{
    let added = nic.add_wq_obj(vport, is_send, ids.0, ids.1);
    let started = nic.with_vport(vport as int, nic.vports[vport as int].started(backend_queues));
    let polled = nic.poll_shut_down(stopped);
    torn_down_is_a_prefix(nic.vports, stopped, 0);
    assert forall|i: int| 0 <= i < nic.vports.len() implies fences_have_tasks(
        #[trigger] added.vports[i],
    ) && fences_have_tasks(started.vports[i]) && fences_have_tasks(polled.vports[i]) by {
        assert(fences_have_tasks(nic.vports[i]));
    }
    assert forall|i: int| 0 <= i < nic.vports.len() implies fences_have_tasks(
        #[trigger] started.vports[i],
    ) by {
        assert(fences_have_tasks(added.vports[i]) && fences_have_tasks(started.vports[i]));
    }
    assert forall|i: int| 0 <= i < nic.vports.len() implies fences_have_tasks(
        #[trigger] polled.vports[i],
    ) by {
        assert(fences_have_tasks(added.vports[i]) && fences_have_tasks(polled.vports[i]));
    }
}

/// A fence goes to a task only where the data path of its queue's vport runs; anywhere else it is
/// to be completed inline.
pub proof fn fence_is_routed_to_a_running_task(nic: NicView, handle: u64)
    requires
        nic.vports.len() <= usize::MAX,
        all_fences_have_tasks(nic),
    ensures
        nic.fence_rq(handle) matches Ok(
            BnicStepView::Fence { route: Some((i, pos)), .. },
        ) ==> i < nic.vports.len() && nic.vports[i as int].tasks > 0,
{
    first_vport_is_first(nic.vports, false, handle, 0);
    let i = first_vport_from(nic.vports, false, handle, 0) as int;
    if i < nic.vports.len() {
        assert(fences_have_tasks(nic.vports[i]));
        first_from_is_first(nic.vports[i].rx, handle, 0);
    }
}

/// The handles that the guest learns of a vport are accepted by the commands that take one: the one
/// of a vport that a privileged client created, and the one that a query of a vport reports, which
/// is its index.
pub proof fn vport_handles_are_accepted(
    nic: NicView,
    hw: HwView,
    msg_version: u16,
    vport_index: u32,
)
    requires
        nic.vports.len() > 0,
    ensures
        nic.handle(hw, msg_version, BnicRequest::PfCreateVport).1 matches Ok(
            BnicStepView::Reply(BnicBody::PfVport { vport_handle }),
        ) && nic.handle(hw, msg_version, BnicRequest::ConfigVportTx { vport: vport_handle }).1 is Ok,
        nic.handle(hw, msg_version, BnicRequest::QueryVportConfig { vport_index }).1 matches Ok(
            BnicStepView::Reply(BnicBody::VportConfig { vport, .. }),
        ) ==> vport == vport_index && nic.handle(
            hw,
            msg_version,
            BnicRequest::ConfigVportTx { vport },
        ).1 is Ok,
{
}

/// Filters that are created one after the other have handles that differ, and none of them is zero.
pub proof fn filter_handles_are_distinct(
    nic: NicView,
    hw: HwView,
    msg_version: u16,
    vport_handle: u64,
)
    requires
        vport_handle < nic.vports.len(),
        0 < nic.next_filter_handle < u64::MAX,
    ensures
        ({
            let (after, ret) = nic.handle(
                hw,
                msg_version,
                BnicRequest::PfCreateFilter { vport_handle },
            );
            &&& ret == Ok::<BnicStepView, BnicError>(
                BnicStepView::Reply(BnicBody::PfFilter { filter_handle: nic.next_filter_handle }),
            )
            &&& after.next_filter_handle > nic.next_filter_handle
            &&& after.vports == nic.vports
        }),
{
}

/// Whether no two live objects have one handle, whatever their vports and directions.
pub open spec fn handles_distinct(nic: NicView) -> bool {
    forall|i: int, dir: bool, k: int, j: int, other: bool, m: int|
        0 <= i < nic.vports.len() && 0 <= k < objects(nic.vports[i], dir).len() && 0 <= j
            < nic.vports.len() && 0 <= m < objects(nic.vports[j], other).len() && (
        #[trigger] objects(nic.vports[i], dir)[k]).wq_obj == (#[trigger] objects(
            nic.vports[j],
            other,
        )[m]).wq_obj ==> i == j && dir == other && k == m
}

/// What holds of the handles of a client at any time.
pub open spec fn handles_in_order(nic: NicView) -> bool {
    &&& nic.handles_given_out()
    &&& handles_distinct(nic)
    &&& nic.next_wq_obj > 0
    &&& nic.next_filter_handle > 0
}

/// Something that happens to the client.
pub enum NicEvent {
    /// A command is serviced.
    Command { hw: HwView, msg_version: u16, req: BnicRequest },
    /// The queues of a new work-queue object were allocated.
    QueuesAllocated { vport: usize, is_send: bool, wq_id: u32, cq_id: u32 },
    /// A data path starts.
    Started { vport: usize, backend_queues: nat },
    ShutDown,
    PolledShutDown { stopped: Seq<usize> },
}

/// Whether something can happen to a client: the vport is there, and a handle is left to give out.
pub open spec fn can_happen(nic: NicView, event: NicEvent) -> bool {
    match event {
        NicEvent::Command { req, .. } => req is PfCreateFilter ==> nic.next_filter_handle
            < u64::MAX,
        NicEvent::QueuesAllocated { vport, .. } => vport < nic.vports.len() && nic.next_wq_obj
            < u64::MAX,
        NicEvent::Started { vport, .. } => vport < nic.vports.len(),
        NicEvent::ShutDown => true,
        NicEvent::PolledShutDown { stopped } => stopped.len() == nic.vports.len(),
    }
}

/// The client after something happened to it.
pub open spec fn nic_after(nic: NicView, event: NicEvent) -> NicView {
    match event {
        NicEvent::Command { hw, msg_version, req } => nic.handle(hw, msg_version, req).0,
        NicEvent::QueuesAllocated { vport, is_send, wq_id, cq_id } => nic.add_wq_obj(
            vport,
            is_send,
            wq_id,
            cq_id,
        ),
        NicEvent::Started { vport, backend_queues } => nic.with_vport(
            vport as int,
            nic.vports[vport as int].started(backend_queues),
        ),
        NicEvent::ShutDown => nic.shut_down(),
        NicEvent::PolledShutDown { stopped } => nic.poll_shut_down(stopped),
    }
}

/// The client after the first `n` of a sequence of events.
pub open spec fn nic_at(nic: NicView, events: Seq<NicEvent>, n: nat) -> NicView
    decreases n,
{
    if n == 0 {
        nic
    } else {
        nic_after(nic_at(nic, events, (n - 1) as nat), events[n - 1])
    }
}

/// Whether a sequence of events can happen to a client, one after the other.
pub open spec fn all_can_happen(nic: NicView, events: Seq<NicEvent>) -> bool {
    forall|n: int|
        0 <= n < events.len() ==> can_happen(
            nic_at(nic, events, n as nat),
            #[trigger] events[n],
        )
}

/// The handle of the work-queue object that an event creates.
pub open spec fn created_object(nic: NicView, event: NicEvent) -> Option<u64> {
    match event {
        NicEvent::QueuesAllocated { .. } => Some(nic.next_wq_obj),
        _ => None,
    }
}

/// The handle of the filter that an event creates.
pub open spec fn created_filter(nic: NicView, event: NicEvent) -> Option<u64> {
    match event {
        NicEvent::Command { hw, msg_version, req } => match nic.handle(hw, msg_version, req).1 {
            Ok(BnicStepView::Reply(BnicBody::PfFilter { filter_handle })) => Some(filter_handle),
            _ => None,
        },
        _ => None,
    }
}

/// Destroying an object keeps the handles of the others distinct.
proof fn destroying_keeps_handles_distinct(nic: NicView, wq_type: QueueType, handle: u64)
    requires
        handles_distinct(nic),
    ensures
        handles_distinct(nic.destroy_wq_obj(wq_type, handle).0),
{
    let after = nic.destroy_wq_obj(wq_type, handle).0;
    if let Some(is_send) = wq_direction(wq_type) {
        first_vport_is_first(nic.vports, is_send, handle, 0);
        let at = first_vport_from(nic.vports, is_send, handle, 0) as int;
        if at < nic.vports.len() && nic.vports[at].tasks == 0 {
            let pos = first_of(objects(nic.vports[at], is_send), handle) as int;
            let before = |i: int, dir: bool, k: int|
                if i == at && dir == is_send && k >= pos {
                    k + 1
                } else {
                    k
                };
            assert forall|i: int, dir: bool, k: int|
                0 <= i < after.vports.len() && 0 <= k < objects(after.vports[i], dir).len() implies
                0 <= before(i, dir, k) < objects(nic.vports[i], dir).len() && (#[trigger] objects(
                after.vports[i],
                dir,
            )[k]) == objects(nic.vports[i], dir)[before(i, dir, k)] by {}
        }
    }
}

/// Whatever happens to a client keeps its handles in order, and never takes a handle back that was
/// to be given out next.
pub proof fn events_keep_handles_in_order(nic: NicView, event: NicEvent)
    requires
        handles_in_order(nic),
        can_happen(nic, event),
    ensures
        handles_in_order(nic_after(nic, event)),
        nic_after(nic, event).next_wq_obj >= nic.next_wq_obj,
        nic_after(nic, event).next_filter_handle >= nic.next_filter_handle,
        created_object(nic, event) matches Some(handle) ==> handle == nic.next_wq_obj && handle
            < nic_after(nic, event).next_wq_obj,
        created_filter(nic, event) matches Some(handle) ==> handle == nic.next_filter_handle
            && handle < nic_after(nic, event).next_filter_handle,
{
    let after = nic_after(nic, event);
    match event {
        NicEvent::Command { hw, msg_version, req } => {
            commands_keep_handles_given_out(nic, hw, msg_version, req);
            if let BnicRequest::DestroyWqObj { wq_type, wq_obj_handle } = req {
                destroying_keeps_handles_distinct(nic, wq_type, wq_obj_handle);
            } else {
                assert forall|i: int, dir: bool, k: int|
                    0 <= i < after.vports.len() && 0 <= k < objects(
                        after.vports[i],
                        dir,
                    ).len() implies k < objects(nic.vports[i], dir).len() && (#[trigger] objects(
                    after.vports[i],
                    dir,
                )[k]).wq_obj == objects(nic.vports[i], dir)[k].wq_obj by {}
            }
        },
        NicEvent::QueuesAllocated { vport, is_send, wq_id, cq_id } => {
            new_wq_obj_handle_is_fresh(nic, vport, is_send, wq_id, cq_id);
            let new = objects(nic.vports[vport as int], is_send).len();
            assert forall|i: int, dir: bool, k: int|
                0 <= i < after.vports.len() && 0 <= k < objects(after.vports[i], dir).len() implies (
            if i == vport && dir == is_send && k == new {
                (#[trigger] objects(after.vports[i], dir)[k]).wq_obj == nic.next_wq_obj
            } else {
                &&& k < objects(nic.vports[i], dir).len()
                &&& objects(after.vports[i], dir)[k] == objects(nic.vports[i], dir)[k]
                &&& objects(nic.vports[i], dir)[k].wq_obj < nic.next_wq_obj
            }) by {}
        },
        NicEvent::Started { vport, backend_queues } => {
            let none = Seq::new(nic.vports.len(), |i: int| 0usize);
            tasks_keep_handles_given_out(nic, vport, backend_queues, none);
            assert forall|i: int, dir: bool, k: int|
                0 <= i < after.vports.len() && 0 <= k < objects(after.vports[i], dir).len() implies k
                < objects(nic.vports[i], dir).len() && (#[trigger] objects(
                after.vports[i],
                dir,
            )[k]).wq_obj == objects(nic.vports[i], dir)[k].wq_obj by {}
        },
        NicEvent::ShutDown => {},
        NicEvent::PolledShutDown { stopped } => {
            assert forall|i: int, dir: bool, k: int|
                0 <= i < after.vports.len() && 0 <= k < objects(after.vports[i], dir).len() implies k
                < objects(nic.vports[i], dir).len() && (#[trigger] objects(
                after.vports[i],
                dir,
            )[k]) == objects(nic.vports[i], dir)[k] by {}
        },
    }
}

/// The handles of a new client are in order.
pub proof fn new_handles_are_in_order(vports: Seq<VportConfig>, config: BnicConfig)
    ensures
        handles_in_order(new_nic(vports, config)),
{
}

/// At any time, whatever happened before, live objects of all vports and both directions have
/// handles that differ from each other and from zero.
pub proof fn handles_stay_in_order(nic: NicView, events: Seq<NicEvent>, n: nat)
    requires
        handles_in_order(nic),
        all_can_happen(nic, events),
        n <= events.len(),
    ensures
        handles_in_order(nic_at(nic, events, n)),
    decreases n,
{
    if n > 0 {
        handles_stay_in_order(nic, events, (n - 1) as nat);
        assert(can_happen(nic_at(nic, events, (n - 1) as nat), events[n - 1]));
        events_keep_handles_in_order(nic_at(nic, events, (n - 1) as nat), events[n - 1]);
    }
}

/// The handles that are given out next only grow.
proof fn next_handles_grow(nic: NicView, events: Seq<NicEvent>, m: nat, n: nat)
    requires
        handles_in_order(nic),
        all_can_happen(nic, events),
        m <= n <= events.len(),
    ensures
        nic_at(nic, events, m).next_wq_obj <= nic_at(nic, events, n).next_wq_obj,
        nic_at(nic, events, m).next_filter_handle <= nic_at(nic, events, n).next_filter_handle,
    decreases n,
{
    if m < n {
        let last = (n - 1) as nat;
        next_handles_grow(nic, events, m, last);
        handles_stay_in_order(nic, events, last);
        assert(can_happen(nic_at(nic, events, last), events[n - 1]));
        events_keep_handles_in_order(nic_at(nic, events, last), events[n - 1]);
    }
}

/// No handle is ever given out twice: in any sequence of events, the handles of the work-queue
/// objects that are created differ from each other, even where an object was destroyed in between,
/// and none is zero or the largest number. The same holds of the handles of filters.
pub proof fn handles_are_never_reused(nic: NicView, events: Seq<NicEvent>, m: nat, n: nat)
    requires
        handles_in_order(nic),
        all_can_happen(nic, events),
        m <= n < events.len(),
    ensures
        ({
            let first = created_object(nic_at(nic, events, m), events[m as int]);
            let second = created_object(nic_at(nic, events, n), events[n as int]);
            &&& second is Some ==> 0 < second->0 < u64::MAX
            &&& m < n && first is Some && second is Some ==> first->0 != second->0
        }),
        ({
            let first = created_filter(nic_at(nic, events, m), events[m as int]);
            let second = created_filter(nic_at(nic, events, n), events[n as int]);
            &&& second is Some ==> 0 < second->0 < u64::MAX
            &&& m < n && first is Some && second is Some ==> first->0 != second->0
        }),
{
    handles_stay_in_order(nic, events, m);
    handles_stay_in_order(nic, events, n);
    assert(can_happen(nic_at(nic, events, m), events[m as int]));
    assert(can_happen(nic_at(nic, events, n), events[n as int]));
    events_keep_handles_in_order(nic_at(nic, events, m), events[m as int]);
    events_keep_handles_in_order(nic_at(nic, events, n), events[n as int]);
    if m < n {
        next_handles_grow(nic, events, m + 1, n);
    }
}

/// A live handle destroys exactly its own object: the queues that are freed are those of the
/// object, and every other object stays. It does so while the data path of its vport is stopped,
/// and is refused while that runs.
pub proof fn handle_destroys_its_own_object(nic: NicView, i: int, is_send: bool, k: int)
    requires
        handles_in_order(nic),
        0 <= i < nic.vports.len(),
        0 <= k < objects(nic.vports[i], is_send).len(),
    ensures
        ({
            let wq_type = if is_send {
                QueueType::Sq
            } else {
                QueueType::Rq
            };
            let list = objects(nic.vports[i], is_send);
            nic.destroy_wq_obj(wq_type, list[k].wq_obj) == if nic.vports[i].tasks > 0 {
                (nic, Err::<BnicStepView, BnicError>(BnicError::Plain(BnicFailure::QueueStillInUse)))
            } else {
                (
                    nic.with_vport(i, with_objects(nic.vports[i], is_send, list.remove(k))),
                    Ok::<BnicStepView, BnicError>(
                        BnicStepView::FreeQueues {
                            is_send,
                            wq_id: list[k].wq_id,
                            cq_id: list[k].cq_id,
                        },
                    ),
                )
            }
        }),
{
    let list = objects(nic.vports[i], is_send);
    let handle = list[k].wq_obj;
    first_vport_is_first(nic.vports, is_send, handle, 0);
    let at = first_vport_from(nic.vports, is_send, handle, 0) as int;
    first_from_is_first(list, handle, 0);
    assert(first_of(list, handle) < list.len());
    if at > i {
        assert(first_of(objects(nic.vports[i], is_send), handle) >= list.len());
    }
    let found = objects(nic.vports[at], is_send);
    first_from_is_first(found, handle, 0);
    assert(objects(nic.vports[at], is_send)[first_of(found, handle) as int].wq_obj == objects(
        nic.vports[i],
        is_send,
    )[k].wq_obj);
}

} // verus!
