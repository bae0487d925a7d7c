//! How a request on the hardware channel is carried through, step by step, to its response.

use crate::bnic::{BnicBody, BnicError, BnicRequest, BnicStatus, BnicStepView, NicView, StartView};
use crate::channel::{ChannelView, Message, PhaseView};
use crate::completion::{CqeType, CqeView};
use crate::hwc::{bnic_dev_id, slot_of, ChannelFailure, HwcRequest, HwcResponse, HwcTxOob};
use crate::hwc::{RequestHeader, RequestOutcome, ResponseStatus, StepOutcome, StepView, Target};
use vstd::prelude::*;

verus! {

/// Whether a phase is the end of a request: its work request is completed on the send queue, the
/// response header is the one that the guest asked for, with a status, and the receive buffer is
/// completed with the length of header and body.
pub open spec fn answers(
    channel: ChannelView,
    msg: Message,
    status: ResponseStatus,
    body_len: int,
) -> bool {
    channel.phase matches PhaseView::Finish { sent, header, received } && {
        &&& sent.cq_id == channel.control.cq_id
        &&& sent.wq_id == channel.control.sq_id
        &&& sent.is_send
        &&& sent.cqe is Empty
        &&& header.response == msg.hdr.resp
        &&& header.dev_id == msg.hdr.dev_id
        &&& header.activity_id == msg.hdr.activity_id
        &&& header.status == status
        &&& received.cq_id == channel.control.cq_id
        &&& received.wq_id == channel.control.rq_id
        &&& !received.is_send
        &&& received.cqe matches CqeView::Hwc { wqe_addr_low_or_offset, tx_oob_data_size }
            && wqe_addr_low_or_offset == msg.rqe_offset && tx_oob_data_size == msg.resp_hdr_len
            + body_len
    }
}

/// Whether a message is for the network client.
pub open spec fn is_command(msg: Message) -> bool {
    msg.hdr.req.msg_type >= 0x1_0000 && msg.hdr.dev_id == bnic_dev_id()
}

/// The status of a refusal that its handler gave no status for.
pub open spec fn plain_refusal(msg: Message) -> ResponseStatus {
    if is_command(msg) {
        ResponseStatus::Bnic(BnicStatus::NotSetByHandler)
    } else {
        ResponseStatus::Failed
    }
}

/// How any request ends.
pub proof fn requests_end_as_they_came_out(
    channel: ChannelView,
    msg: Message,
    len: usize,
    status: BnicStatus,
)
    requires
        msg.resp_hdr_len + len <= u32::MAX,
        msg.resp_hdr_len <= u32::MAX,
    ensures
        answers(
            channel.finish(msg, RequestOutcome::Answered { response_len: len }),
            msg,
            ResponseStatus::Success,
            len as int,
        ),
        answers(channel.refuse(msg, None), msg, plain_refusal(msg), 0),
        answers(channel.refuse(msg, Some(status)), msg, ResponseStatus::Bnic(status), 0),
        channel.finish(msg, RequestOutcome::Answered { response_len: len }).control
            == channel.control,
        channel.refuse(msg, None).control == channel.control,
{
}

/// A work request is taken up, refused, or stops the channel: it stops the channel where it is not
/// accepted; a request to the channel itself, or to the network client, is decoded for it, with
/// the room that there is; and one to anyone else is answered with the generic failure.
pub proof fn work_request_is_taken_up(
    channel: ChannelView,
    oob: Option<HwcTxOob>,
    hdr: Option<RequestHeader>,
    req_len: usize,
    resp_len: usize,
    resp_hdr_len: usize,
    rqe_offset: u32,
)
    ensures
        ({
            let next = channel.begin(oob, hdr, req_len, resp_len, resp_hdr_len, rqe_offset);
            let accepted = channel.control.accept(oob, hdr, req_len, resp_len, resp_hdr_len);
            let msg = Message {
                hdr: hdr->0,
                room: accepted->Ok_0.room,
                rqe_offset,
                resp_hdr_len,
            };
            &&& next.control == channel.control
            &&& accepted matches Err(failure) ==> next.phase == PhaseView::Failed(failure)
            &&& accepted matches Ok(ok) ==> match ok.target {
                Target::Core => next.phase == (PhaseView::DecodeCore { msg }),
                Target::Bnic => next.phase == (PhaseView::DecodeBnic { msg }),
                Target::UnknownDevice => answers(next, msg, ResponseStatus::Failed, 0),
            }
        }),
{
}

/// A core request is worked on where it is not refused, and refused with the generic failure
/// otherwise; either way the control side is as the request left it.
pub proof fn core_request_is_worked_on(channel: ChannelView, msg: Message, req: HwcRequest)
    requires
        channel.phase == (PhaseView::DecodeCore { msg }),
        msg.resp_hdr_len <= u32::MAX,
    ensures
        ({
            let next = channel.serve_core(req);
            let (control, ret) = channel.control.handle(msg.hdr.dev_id, req);
            &&& next.control == control
            &&& ret matches Ok(step) ==> next.phase == (PhaseView::Core { msg, step })
            &&& ret is Err ==> answers(next, msg, plain_refusal(msg), 0)
            &&& control.cq_id == channel.control.cq_id
            &&& control.sq_id == channel.control.sq_id
            &&& control.rq_id == channel.control.rq_id
            &&& control.state.limits == channel.control.state.limits
            &&& control.state.hwc_eq_id == channel.control.state.hwc_eq_id
        }),
{
}

/// After its work a core request is answered without a body, or its body is written; one that
/// could not be worked on is refused, and keeps everything it had.
pub proof fn core_work_is_answered(
    channel: ChannelView,
    msg: Message,
    step: StepView,
    outcome: StepOutcome,
)
    requires
        channel.phase == (PhaseView::Core { msg, step }),
        msg.resp_hdr_len <= u32::MAX,
    ensures
        ({
            let next = channel.step_done(outcome);
            &&& next.control == channel.control
            &&& step is Done || step is PostEq ==> answers(next, msg, ResponseStatus::Success, 0)
            &&& step matches StepView::Reply(body) ==> next.phase == (PhaseView::CoreBody {
                msg,
                step,
                body,
            })
            &&& step is AllocEq ==> (outcome matches StepOutcome::Allocated { queue_index }
                ==> next.phase == (PhaseView::CoreBody {
                msg,
                step,
                body: HwcResponse::Queue { queue_index },
            }))
            &&& step is AllocEq && !(outcome is Allocated) ==> answers(
                next,
                msg,
                plain_refusal(msg),
                0,
            )
            &&& (step is FreeEq || step is UpdateEqMsix) && outcome is Failed ==> answers(
                next,
                msg,
                plain_refusal(msg),
                0,
            )
            &&& (step is FreeEq || step is UpdateEqMsix) && !(outcome is Failed) ==> answers(
                next,
                msg,
                ResponseStatus::Success,
                0,
            )
        }),
{
}

/// The region of a queue goes with the response that names the queue: once that is written the
/// region is gone, and no other; until then, and where the body could not be written, it is there.
pub proof fn queue_takes_its_region(
    channel: ChannelView,
    msg: Message,
    step: StepView,
    body: HwcResponse,
    written: bool,
    len: usize,
    other: usize,
)
    requires
        channel.phase == (PhaseView::CoreBody { msg, step, body }),
        msg.resp_hdr_len + len <= u32::MAX,
    ensures
        ({
            let next = channel.core_body_written(written, len);
            let before = channel.control.state;
            let now = next.control.state;
            &&& written ==> answers(next, msg, ResponseStatus::Success, len as int)
            &&& !written ==> answers(next, msg, plain_refusal(msg), 0) && next.control
                == channel.control
            &&& step matches StepView::AllocEq { gdma_region, .. } ==> {
                &&& written ==> !now.regions.contains_key(slot_of(gdma_region))
                &&& other != slot_of(gdma_region) ==> (now.regions.contains_key(other)
                    <==> before.regions.contains_key(other))
            }
            &&& !(step is AllocEq) ==> next.control == channel.control
        }),
{
}

/// A command of the network client is carried on as the client says: refused with the status that
/// the client gave, or with its default; answered with a body where it has one, or else at once,
/// with all of the room counted as the response; or worked on.
pub proof fn command_is_carried_on(
    channel: ChannelView,
    msg: Message,
    nic: NicView,
    req: BnicRequest,
)
    requires
        channel.phase == (PhaseView::DecodeBnic { msg }),
        msg.resp_hdr_len + msg.room <= u32::MAX,
    ensures
        ({
            let (next, client) = channel.serve_bnic(nic, req);
            let (after, ret) = nic.handle(channel.control.state, msg.hdr.req.msg_version, req);
            &&& client == after
            &&& next.control == channel.control
            &&& match ret {
                Err(BnicError::Tagged(err)) => answers(
                    next,
                    msg,
                    ResponseStatus::Bnic(err.status),
                    0,
                ),
                Err(BnicError::Plain(_)) => answers(next, msg, plain_refusal(msg), 0),
                Ok(BnicStepView::Reply(BnicBody::Empty)) => answers(
                    next,
                    msg,
                    ResponseStatus::Success,
                    msg.room as int,
                ),
                Ok(BnicStepView::Reply(body)) => next.phase == (PhaseView::BnicReply { msg, body }),
                Ok(BnicStepView::AllocQueues(alloc)) => next.phase == (PhaseView::AllocQueues {
                    msg,
                    alloc,
                }),
                Ok(BnicStepView::FreeQueues { is_send, wq_id, cq_id }) => next.phase == (
                PhaseView::FreeQueues { msg, is_send, wq_id, cq_id }),
                Ok(BnicStepView::Fence { cq_id, wq_id, route }) => next.phase == (
                PhaseView::Fence { msg, cq_id, wq_id, route }),
                Ok(BnicStepView::Steer { vport, stop_endpoint, start, link, body }) => next.phase
                    == (PhaseView::StopEndpoint {
                    msg,
                    vport,
                    stop: stop_endpoint,
                    start,
                    link,
                    body,
                }),
            }
        }),
{
}

/// A work-queue object comes into being exactly where both of its queues were allocated; the
/// response then names them and the handle of the object. Where one could not be, the command is
/// refused and the client is as it was.
pub proof fn object_needs_both_queues(
    channel: ChannelView,
    nic: NicView,
    wq: Option<u32>,
    cq: Option<u32>,
)
    requires
        channel.phase is AllocQueues,
        channel.phase.message()->0.resp_hdr_len <= u32::MAX,
    ensures
        ({
            let (next, client) = channel.queues_allocated(nic, wq, cq);
            &&& next.control == channel.control
            &&& channel.phase matches PhaseView::AllocQueues { msg, alloc } && {
                &&& wq is Some && cq is Some ==> client == nic.add_wq_obj(
                    alloc.vport,
                    alloc.is_send,
                    wq->0,
                    cq->0,
                ) && next.phase == (PhaseView::WqObjBody {
                    msg,
                    alloc,
                    body: BnicBody::WqObj {
                        wq_id: wq->0,
                        cq_id: cq->0,
                        wq_obj: nic.next_wq_obj,
                    },
                })
                &&& wq is None || cq is None ==> client == nic && answers(
                    next,
                    msg,
                    plain_refusal(msg),
                    0,
                )
            }
        }),
{
}

/// The regions of an object's queues go with the response that names the queues: once that is
/// written, both are gone, and no other; where it could not be, they are there.
pub proof fn object_takes_its_regions(channel: ChannelView, written: bool, other: usize)
    requires
        channel.phase is WqObjBody,
        channel.phase.message()->0.resp_hdr_len + channel.phase.message()->0.room <= u32::MAX,
    ensures
        ({
            let next = channel.wq_obj_written(written);
            let before = channel.control.state.regions;
            let now = next.control.state.regions;
            channel.phase matches PhaseView::WqObjBody { msg, alloc, .. } && {
                let wq = slot_of(alloc.wq_gdma_region);
                let cq = slot_of(alloc.cq_gdma_region);
                &&& written ==> answers(next, msg, ResponseStatus::Success, msg.room as int)
                    && !now.contains_key(wq) && !now.contains_key(cq)
                &&& !written ==> answers(next, msg, plain_refusal(msg), 0) && next.control
                    == channel.control
                &&& other != wq && other != cq ==> (now.contains_key(other)
                    <==> before.contains_key(other)) && now[other] == before[other]
            }
        }),
{
}

/// A fence that a task took is answered at once; any other is completed inline first, on the
/// completion queue of the receive queue.
pub proof fn fence_is_completed_inline_unless_routed(channel: ChannelView, routed: bool)
    requires
        channel.phase is Fence,
        channel.phase.message()->0.resp_hdr_len + channel.phase.message()->0.room <= u32::MAX,
    ensures
        ({
            let next = channel.fence_routed(routed);
            &&& next.control == channel.control
            &&& channel.phase matches PhaseView::Fence { msg, cq_id, wq_id, .. } && {
                &&& routed ==> answers(next, msg, ResponseStatus::Success, msg.room as int)
                &&& !routed ==> (next.phase matches PhaseView::PostFence { msg: same, post } && {
                    &&& same == msg
                    &&& post.cq_id == cq_id
                    &&& post.wq_id == wq_id
                    &&& !post.is_send
                    &&& post.cqe matches CqeView::Rx(fence) && fence.cqe_type
                        == CqeType::RxObjectFence && fence.packets.len() == 0
                })
            }
        }),
{
}

/// A receive configuration goes on, once the endpoint has stopped: where nothing is to be started,
/// with the link event; where the data path cannot be started, with a refusal and without a link
/// event; and else with the backend.
pub proof fn configuration_goes_on_after_the_stop(channel: ChannelView)
    requires
        channel.phase is StopEndpoint,
        channel.phase.message()->0.resp_hdr_len <= u32::MAX,
    ensures
        ({
            let next = channel.endpoint_stopped();
            &&& next.control == channel.control
            &&& channel.phase matches PhaseView::StopEndpoint {
                msg,
                vport,
                stop,
                start,
                link,
                body,
            } && match start {
                StartView::NotNeeded => next.phase matches PhaseView::RunTasks {
                    msg: same,
                    tasks,
                    link: posted,
                    body: told,
                } && same == msg && tasks.len() == 0 && posted == link && told == body,
                StartView::Failed(_) => answers(next, msg, plain_refusal(msg), 0),
                StartView::Start(plan) => next.phase == (PhaseView::StartBackend {
                    msg,
                    vport,
                    plan,
                    link,
                    body,
                }),
            }
        }),
{
}

/// Tasks run, and the link event is posted, exactly where the backend provided as many queues as
/// it was asked for; otherwise the command is refused and the vport stays stopped.
pub proof fn tasks_run_on_the_queues_asked_for(
    channel: ChannelView,
    nic: NicView,
    provided: Option<usize>,
)
    requires
        channel.phase is StartBackend,
        channel.phase.message()->0.resp_hdr_len <= u32::MAX,
    ensures
        ({
            let (next, client) = channel.backend_provided(nic, provided);
            &&& next.control == channel.control
            &&& channel.phase matches PhaseView::StartBackend { msg, vport, plan, link, body } && {
                let before = nic.vports[vport as int];
                let met = provided is Some && provided->0 == plan.backend_queues;
                &&& met ==> client == nic.with_vport(
                    vport as int,
                    before.started(plan.backend_queues),
                ) && next.phase == (PhaseView::RunTasks {
                    msg,
                    tasks: before.task_plans(plan.backend_queues),
                    link,
                    body,
                })
                &&& !met ==> client == nic && answers(next, msg, plain_refusal(msg), 0)
            }
        }),
{
}

/// The receive buffer is completed once the response header is written, and only then; a header
/// that cannot be written stops the channel.
pub proof fn header_comes_before_the_completion(channel: ChannelView, written: bool)
    requires
        channel.phase is Finish,
    ensures
        ({
            let next = channel.header_written(written);
            &&& next.control == channel.control
            &&& written ==> (next.phase matches PhaseView::Received { post } && post
                == channel.phase->received)
            &&& !written ==> next.phase == PhaseView::Failed(ChannelFailure::HeaderWrite)
        }),
{
}

/// How commands end: with success and all of the room where their work is done, their tasks run
/// and have no body to tell, or their body is written, and refused where the response buffer could
/// not be cleared or the body not be written.
pub proof fn commands_end_as_they_came_out(channel: ChannelView, written: bool)
    requires
        channel.phase.message() is Some,
        channel.phase.message()->0.resp_hdr_len + channel.phase.message()->0.room <= u32::MAX,
    ensures
        ({
            let msg = channel.phase.message()->0;
            let room = msg.room as int;
            &&& channel.phase is DecodeBnic ==> answers(
                channel.clear_failed(),
                msg,
                plain_refusal(msg),
                0,
            )
            &&& channel.phase is FreeQueues || channel.phase is PostFence ==> answers(
                channel.finished(),
                msg,
                ResponseStatus::Success,
                room,
            )
            &&& channel.phase matches PhaseView::RunTasks { body, .. } ==> {
                &&& body is Empty ==> answers(
                    channel.tasks_started(),
                    msg,
                    ResponseStatus::Success,
                    room,
                )
                &&& !(body is Empty) ==> channel.tasks_started().phase == (PhaseView::BnicReply {
                    msg,
                    body,
                })
            }
            &&& channel.phase is BnicReply && written ==> answers(
                channel.bnic_body_written(written),
                msg,
                ResponseStatus::Success,
                room,
            )
            &&& channel.phase is BnicReply && !written ==> answers(
                channel.bnic_body_written(written),
                msg,
                plain_refusal(msg),
                0,
            )
        }),
{
}

} // verus!
