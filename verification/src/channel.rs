//! The task that services an established hardware channel, one request after the other.
//!
//! A channel is always in a [`Phase`], which says what its caller has to do next; the outcome is
//! handed back by the method that the phase names. Every request that is accepted ends in a
//! response.

use crate::bnic::{AllocView, BasicNic, BnicBody, BnicError, BnicRequest, BnicStep};
use crate::bnic::{BnicStatus, BnicStepView, DatapathPlan, NicView, PlanView, RxSteering};
use crate::bnic::{StartPlan, StartView, TaskPlan, TaskView, WqObjAlloc};
use crate::completion::{CqPost, CqPostView, CqeView, RxCompletionView};
use crate::hwc::{action_result, response_status, slot_of, ChannelFailure, ControlView};
use crate::hwc::{EqPost, HwControl, HwcReply, HwcRequest, HwcResponse, HwcStep};
use crate::hwc::{HwcTxOob, PostView, RequestHeader, RequestOutcome, ResponseHeader, StepOutcome};
use crate::hwc::{StepView, Target};
use vstd::prelude::*;

verus! {

/// A request that is being serviced.
#[derive(Clone, Copy, Debug, PartialEq, Eq, Structural)]
pub struct Message {
    pub hdr: RequestHeader,
    /// How many bytes the guest left for the body of the response.
    pub room: usize,
    /// The receive buffer that the response goes to.
    pub rqe_offset: u32,
    /// The length of a response header.
    pub resp_hdr_len: usize,
}

/// What is due on a channel.
#[allow(inconsistent_fields)]
pub enum Phase {
    /// Take a work request and a receive buffer from the guest: [`HwcChannel::begin`].
    Wait,
    /// Decode a core request: [`HwcChannel::serve_core`].
    DecodeCore { msg: Message },
    /// Clear the guest's response buffer and decode a command: [`HwcChannel::serve_bnic`], or
    /// [`HwcChannel::clear_failed`].
    DecodeBnic { msg: Message },
    /// Do the work of a step: [`HwcChannel::step_done`].
    Core { msg: Message, step: HwcStep },
    /// Write the body of a response: [`HwcChannel::core_body_written`].
    CoreBody { msg: Message, step: HwcStep, body: HwcResponse },
    /// Allocate two queues: [`HwcChannel::queues_allocated`].
    AllocQueues { msg: Message, alloc: WqObjAlloc },
    /// Write the response that names two queues: [`HwcChannel::wq_obj_written`].
    WqObjBody { msg: Message, alloc: WqObjAlloc, body: BnicBody },
    /// Free two queues: [`HwcChannel::finished`].
    FreeQueues { msg: Message, is_send: bool, wq_id: u32, cq_id: u32 },
    /// Route a fence, if there is a task to take it: [`HwcChannel::fence_routed`].
    Fence { msg: Message, cq_id: u32, wq_id: u32, route: Option<(usize, usize)> },
    /// Post the completion of a fence: [`HwcChannel::finished`].
    PostFence { msg: Message, post: CqPost },
    /// Stop a vport's endpoint, if that is asked for: [`HwcChannel::endpoint_stopped`].
    StopEndpoint { msg: Message, steering: RxSteering },
    /// Ask the backend for its queues: [`HwcChannel::backend_provided`].
    StartBackend {
        msg: Message,
        vport: usize,
        plan: DatapathPlan,
        link: Option<EqPost>,
        body: BnicBody,
    },
    /// Run data path tasks, and post the link event: [`HwcChannel::tasks_started`].
    RunTasks { msg: Message, tasks: Vec<TaskPlan>, link: Option<EqPost>, body: BnicBody },
    /// Write the body of a response to a command: [`HwcChannel::bnic_body_written`].
    BnicReply { msg: Message, body: BnicBody },
    /// Post the completion of the work request, then write the header of the response:
    /// [`HwcChannel::header_written`].
    Finish { reply: HwcReply },
    /// Post the completion of the receive buffer: [`HwcChannel::posted`].
    Received { post: CqPost },
    /// The channel has stopped.
    Failed(ChannelFailure),
}

/// What is due on a channel.
#[allow(inconsistent_fields)]
pub enum PhaseView {
    Wait,
    DecodeCore { msg: Message },
    DecodeBnic { msg: Message },
    Core { msg: Message, step: StepView },
    CoreBody { msg: Message, step: StepView, body: HwcResponse },
    AllocQueues { msg: Message, alloc: AllocView },
    WqObjBody { msg: Message, alloc: AllocView, body: BnicBody },
    FreeQueues { msg: Message, is_send: bool, wq_id: u32, cq_id: u32 },
    Fence { msg: Message, cq_id: u32, wq_id: u32, route: Option<(usize, usize)> },
    PostFence { msg: Message, post: CqPostView },
    StopEndpoint {
        msg: Message,
        vport: usize,
        stop: bool,
        start: StartView,
        link: Option<PostView>,
        body: BnicBody,
    },
    StartBackend {
        msg: Message,
        vport: usize,
        plan: PlanView,
        link: Option<PostView>,
        body: BnicBody,
    },
    RunTasks { msg: Message, tasks: Seq<TaskView>, link: Option<PostView>, body: BnicBody },
    BnicReply { msg: Message, body: BnicBody },
    Finish { sent: CqPostView, header: ResponseHeader, received: CqPostView },
    Received { post: CqPostView },
    Failed(ChannelFailure),
}

/// What a link event says, where there is one.
pub open spec fn link_view(link: Option<EqPost>) -> Option<PostView> {
    match link {
        Some(post) => Some(post@),
        None => None,
    }
}

impl View for Phase {
    type V = PhaseView;

    open spec fn view(&self) -> PhaseView {
        match *self {
            Phase::Wait => PhaseView::Wait,
            Phase::DecodeCore { msg } => PhaseView::DecodeCore { msg },
            Phase::DecodeBnic { msg } => PhaseView::DecodeBnic { msg },
            Phase::Core { msg, step } => PhaseView::Core { msg, step: step@ },
            Phase::CoreBody { msg, step, body } => PhaseView::CoreBody { msg, step: step@, body },
            Phase::AllocQueues { msg, alloc } => PhaseView::AllocQueues { msg, alloc: alloc@ },
            Phase::WqObjBody { msg, alloc, body } => PhaseView::WqObjBody {
                msg,
                alloc: alloc@,
                body,
            },
            Phase::FreeQueues { msg, is_send, wq_id, cq_id } => PhaseView::FreeQueues {
                msg,
                is_send,
                wq_id,
                cq_id,
            },
            Phase::Fence { msg, cq_id, wq_id, route } => PhaseView::Fence {
                msg,
                cq_id,
                wq_id,
                route,
            },
            Phase::PostFence { msg, post } => PhaseView::PostFence { msg, post: post@ },
            Phase::StopEndpoint { msg, steering } => PhaseView::StopEndpoint {
                msg,
                vport: steering.vport,
                stop: steering.stop_endpoint,
                start: steering.start@,
                link: link_view(steering.link),
                body: steering.body,
            },
            Phase::StartBackend { msg, vport, plan, link, body } => PhaseView::StartBackend {
                msg,
                vport,
                plan: plan@,
                link: link_view(link),
                body,
            },
            Phase::RunTasks { msg, tasks, link, body } => PhaseView::RunTasks {
                msg,
                tasks: tasks@.map_values(|task: TaskPlan| task@),
                link: link_view(link),
                body,
            },
            Phase::BnicReply { msg, body } => PhaseView::BnicReply { msg, body },
            Phase::Finish { reply } => PhaseView::Finish {
                sent: reply.sent@,
                header: reply.header,
                received: reply.received@,
            },
            Phase::Received { post } => PhaseView::Received { post: post@ },
            Phase::Failed(failure) => PhaseView::Failed(failure),
        }
    }
}

/// An established channel and what is due on it.
pub struct HwcChannel {
    pub control: HwControl,
    pub phase: Phase,
}

/// What a [`HwcChannel`] holds.
pub struct ChannelView {
    pub control: ControlView,
    pub phase: PhaseView,
}

impl View for HwcChannel {
    type V = ChannelView;

    open spec fn view(&self) -> ChannelView {
        ChannelView { control: self.control@, phase: self.phase@ }
    }
}

impl PhaseView {
    /// The request that is being serviced.
    pub open spec fn message(self) -> Option<Message> {
        match self {
            PhaseView::DecodeCore { msg }
            | PhaseView::DecodeBnic { msg }
            | PhaseView::Core { msg, .. }
            | PhaseView::CoreBody { msg, .. }
            | PhaseView::AllocQueues { msg, .. }
            | PhaseView::WqObjBody { msg, .. }
            | PhaseView::FreeQueues { msg, .. }
            | PhaseView::Fence { msg, .. }
            | PhaseView::PostFence { msg, .. }
            | PhaseView::StopEndpoint { msg, .. }
            | PhaseView::StartBackend { msg, .. }
            | PhaseView::RunTasks { msg, .. }
            | PhaseView::BnicReply { msg, .. } => Some(msg),
            _ => None,
        }
    }
}

impl ChannelView {
    pub open spec fn due(self, phase: PhaseView) -> ChannelView {
        ChannelView { phase, ..self }
    }

    /// The end of a request: its completion, its header, and the completion of the receive buffer.
    pub open spec fn finish(self, msg: Message, outcome: RequestOutcome) -> ChannelView {
        self.due(
            PhaseView::Finish {
                sent: CqPostView {
                    cq_id: self.control.cq_id,
                    cqe: CqeView::Empty,
                    wq_id: self.control.sq_id,
                    is_send: true,
                },
                header: ResponseHeader {
                    response: msg.hdr.resp,
                    dev_id: msg.hdr.dev_id,
                    activity_id: msg.hdr.activity_id,
                    status: response_status(msg.hdr, outcome),
                },
                received: CqPostView {
                    cq_id: self.control.cq_id,
                    cqe: CqeView::Hwc {
                        wqe_addr_low_or_offset: msg.rqe_offset,
                        tx_oob_data_size: (msg.resp_hdr_len + crate::hwc::body_len(outcome)) as u32,
                    },
                    wq_id: self.control.rq_id,
                    is_send: false,
                },
            },
        )
    }

    /// The end of a request that was refused, perhaps with a status.
    pub open spec fn refuse(self, msg: Message, status: Option<BnicStatus>) -> ChannelView {
        self.finish(msg, RequestOutcome::Refused { status })
    }

    /// The end of a command that was refused.
    pub open spec fn refuse_command(self, msg: Message, err: BnicError) -> ChannelView {
        self.refuse(
            msg,
            match err {
                BnicError::Tagged(err) => Some(err.status),
                BnicError::Plain(_) => None,
            },
        )
    }

    /// What follows the work of a command: its response body, where it has one, is written. All of
    /// the guest's response buffer counts as the response.
    pub open spec fn answer_command(self, msg: Message, body: BnicBody) -> ChannelView {
        if body is Empty {
            self.finish(msg, RequestOutcome::Answered { response_len: msg.room })
        } else {
            self.due(PhaseView::BnicReply { msg, body })
        }
    }

    pub open spec fn begin(
        self,
        oob: Option<HwcTxOob>,
        hdr: Option<RequestHeader>,
        req_len: usize,
        resp_len: usize,
        resp_hdr_len: usize,
        rqe_offset: u32,
    ) -> ChannelView {
        match self.control.accept(oob, hdr, req_len, resp_len, resp_hdr_len) {
            Err(failure) => self.due(PhaseView::Failed(failure)),
            Ok(accepted) => {
                let msg = Message { hdr: hdr->0, room: accepted.room, rqe_offset, resp_hdr_len };
                match accepted.target {
                    Target::Core => self.due(PhaseView::DecodeCore { msg }),
                    Target::Bnic => self.due(PhaseView::DecodeBnic { msg }),
                    Target::UnknownDevice => self.refuse(msg, None),
                }
            },
        }
    }

    pub open spec fn serve_core(self, req: HwcRequest) -> ChannelView {
        let msg = self.phase.message()->0;
        let (control, ret) = self.control.handle(msg.hdr.dev_id, req);
        let after = ChannelView { control, ..self };
        match ret {
            Ok(step) => after.due(PhaseView::Core { msg, step }),
            Err(_) => after.refuse(msg, None),
        }
    }

    pub open spec fn step_done(self, outcome: StepOutcome) -> ChannelView {
        match self.phase {
            PhaseView::Core { msg, step } => match action_result(step, outcome) {
                Ok(None) => self.finish(msg, RequestOutcome::Answered { response_len: 0 }),
                Ok(Some(body)) => self.due(PhaseView::CoreBody { msg, step, body }),
                Err(_) => self.refuse(msg, None),
            },
            _ => self,
        }
    }

    pub open spec fn core_body_written(self, written: bool, len: usize) -> ChannelView {
        match self.phase {
            PhaseView::CoreBody { msg, step, body } => if !written {
                self.refuse(msg, None)
            } else {
                let control = match step {
                    StepView::AllocEq { gdma_region, .. } => self.control.with_state(
                        self.control.state.remove_region(gdma_region),
                    ),
                    _ => self.control,
                };
                ChannelView { control, ..self }.finish(
                    msg,
                    RequestOutcome::Answered { response_len: len },
                )
            },
            _ => self,
        }
    }

    pub open spec fn serve_bnic(self, nic: NicView, req: BnicRequest) -> (ChannelView, NicView) {
        let msg = self.phase.message()->0;
        let (after, ret) = nic.handle(self.control.state, msg.hdr.req.msg_version, req);
        let next = match ret {
            Err(err) => self.refuse_command(msg, err),
            Ok(BnicStepView::Reply(body)) => self.answer_command(msg, body),
            Ok(BnicStepView::AllocQueues(alloc)) => self.due(PhaseView::AllocQueues { msg, alloc }),
            Ok(BnicStepView::FreeQueues { is_send, wq_id, cq_id }) => self.due(
                PhaseView::FreeQueues { msg, is_send, wq_id, cq_id },
            ),
            Ok(BnicStepView::Fence { cq_id, wq_id, route }) => self.due(
                PhaseView::Fence { msg, cq_id, wq_id, route },
            ),
            Ok(BnicStepView::Steer { vport, stop_endpoint, start, link, body }) => self.due(
                PhaseView::StopEndpoint { msg, vport, stop: stop_endpoint, start, link, body },
            ),
        };
        (next, after)
    }

    pub open spec fn queues_allocated(
        self,
        nic: NicView,
        wq: Option<u32>,
        cq: Option<u32>,
    ) -> (ChannelView, NicView) {
        match self.phase {
            PhaseView::AllocQueues { msg, alloc } => match (wq, cq) {
                (Some(wq_id), Some(cq_id)) => (
                    self.due(
                        PhaseView::WqObjBody {
                            msg,
                            alloc,
                            body: BnicBody::WqObj { wq_id, cq_id, wq_obj: nic.next_wq_obj },
                        },
                    ),
                    nic.add_wq_obj(alloc.vport, alloc.is_send, wq_id, cq_id),
                ),
                _ => (self.refuse(msg, None), nic),
            },
            _ => (self, nic),
        }
    }

    pub open spec fn wq_obj_written(self, written: bool) -> ChannelView {
        match self.phase {
            PhaseView::WqObjBody { msg, alloc, body } => if !written {
                self.refuse(msg, None)
            } else {
                let state = self.control.state.remove_region(alloc.wq_gdma_region).remove_region(
                    alloc.cq_gdma_region,
                );
                ChannelView { control: self.control.with_state(state), ..self }.finish(
                    msg,
                    RequestOutcome::Answered { response_len: msg.room },
                )
            },
            _ => self,
        }
    }

    pub open spec fn fence_routed(self, routed: bool) -> ChannelView {
        match self.phase {
            PhaseView::Fence { msg, cq_id, wq_id, .. } => if routed {
                self.finish(msg, RequestOutcome::Answered { response_len: msg.room })
            } else {
                self.due(
                    PhaseView::PostFence {
                        msg,
                        post: CqPostView {
                            cq_id,
                            cqe: CqeView::Rx(RxCompletionView::fence()),
                            wq_id,
                            is_send: false,
                        },
                    },
                )
            },
            _ => self,
        }
    }

    pub open spec fn endpoint_stopped(self) -> ChannelView {
        match self.phase {
            PhaseView::StopEndpoint { msg, vport, stop, start, link, body } => match start {
                StartView::NotNeeded => self.due(
                    PhaseView::RunTasks { msg, tasks: Seq::empty(), link, body },
                ),
                StartView::Failed(_) => self.refuse(msg, None),
                StartView::Start(plan) => self.due(
                    PhaseView::StartBackend { msg, vport, plan, link, body },
                ),
            },
            _ => self,
        }
    }

    pub open spec fn backend_provided(self, nic: NicView, provided: Option<usize>) -> (
        ChannelView,
        NicView,
    ) {
        match self.phase {
            PhaseView::StartBackend { msg, vport, plan, link, body } => {
                let before = nic.vports[vport as int];
                match provided {
                    Some(count) if count == plan.backend_queues => (
                        self.due(
                            PhaseView::RunTasks {
                                msg,
                                tasks: before.task_plans(plan.backend_queues),
                                link,
                                body,
                            },
                        ),
                        nic.with_vport(vport as int, before.started(plan.backend_queues)),
                    ),
                    _ => (self.refuse(msg, None), nic),
                }
            },
            _ => (self, nic),
        }
    }

    pub open spec fn clear_failed(self) -> ChannelView {
        self.refuse(self.phase.message()->0, None)
    }

    pub open spec fn finished(self) -> ChannelView {
        let msg = self.phase.message()->0;
        self.finish(msg, RequestOutcome::Answered { response_len: msg.room })
    }

    pub open spec fn tasks_started(self) -> ChannelView {
        match self.phase {
            PhaseView::RunTasks { msg, body, .. } => self.answer_command(msg, body),
            _ => self,
        }
    }

    pub open spec fn bnic_body_written(self, written: bool) -> ChannelView {
        let msg = self.phase.message()->0;
        if written {
            self.finish(msg, RequestOutcome::Answered { response_len: msg.room })
        } else {
            self.refuse(msg, None)
        }
    }

    pub open spec fn header_written(self, written: bool) -> ChannelView {
        match self.phase {
            PhaseView::Finish { received, .. } => if written {
                self.due(PhaseView::Received { post: received })
            } else {
                self.due(PhaseView::Failed(ChannelFailure::HeaderWrite))
            },
            _ => self,
        }
    }

    /// What holds of the request that is being serviced: its response fits a page; the regions of
    /// queues that are being created are there.
    pub open spec fn valid(self) -> bool {
        &&& self.phase.message() matches Some(msg) ==> msg.resp_hdr_len + msg.room <= 4096
        &&& match self.phase {
            PhaseView::Core { step: StepView::AllocEq { gdma_region, .. }, .. }
            | PhaseView::CoreBody { step: StepView::AllocEq { gdma_region, .. }, .. } =>
                self.control.state.regions.contains_key(slot_of(gdma_region)),
            PhaseView::AllocQueues { alloc, .. } | PhaseView::WqObjBody { alloc, .. } => {
                &&& self.control.state.regions.contains_key(slot_of(alloc.wq_gdma_region))
                &&& self.control.state.regions.contains_key(slot_of(alloc.cq_gdma_region))
            },
            _ => true,
        }
    }

    /// What holds between the channel and the network client.
    pub open spec fn matches_nic(self, nic: NicView) -> bool {
        match self.phase {
            PhaseView::AllocQueues { alloc, .. } => alloc.vport < nic.vports.len(),
            PhaseView::StopEndpoint { vport, start: StartView::Start(plan), .. }
            | PhaseView::StartBackend { vport, plan, .. } => {
                &&& vport < nic.vports.len()
                &&& 0 < plan.backend_queues <= nic.vports[vport as int].pairs()
            },
            _ => true,
        }
    }
}

/// Whether one region was named for both queues of a work-queue object.
pub open spec fn shares_a_region(phase: PhaseView) -> bool {
    match phase {
        PhaseView::WqObjBody { alloc, .. } => slot_of(alloc.wq_gdma_region) == slot_of(
            alloc.cq_gdma_region,
        ),
        _ => false,
    }
}

impl HwcChannel {
    pub open spec fn wf(&self) -> bool {
        self.control.wf() && self@.valid()
    }

    /// A channel that waits for its first request.
    pub fn new(control: HwControl) -> (ret: Self)
        requires
            control.wf(),
        ensures
            ret.wf(),
            ret@ == (ChannelView { control: control@, phase: PhaseView::Wait }),
    {
        HwcChannel { control, phase: Phase::Wait }
    }

    fn finish(self, msg: Message, outcome: RequestOutcome) -> (ret: Self)
        requires
            self.control.wf(),
            msg.resp_hdr_len + crate::hwc::body_len(outcome) <= 4096,
        ensures
            ret.wf(),
            ret@ == self@.finish(msg, outcome),
    {
        let reply = self.control.respond(msg.hdr, outcome, msg.rqe_offset, msg.resp_hdr_len);
        HwcChannel { phase: Phase::Finish { reply }, ..self }
    }

    fn refuse(self, msg: Message, status: Option<BnicStatus>) -> (ret: Self)
        requires
            self.control.wf(),
            msg.resp_hdr_len + msg.room <= 4096,
        ensures
            ret.wf(),
            ret@ == self@.refuse(msg, status),
    {
        self.finish(msg, RequestOutcome::Refused { status })
    }

    fn answer_command(self, msg: Message, body: BnicBody) -> (ret: Self)
        requires
            self.control.wf(),
            msg.resp_hdr_len + msg.room <= 4096,
        ensures
            ret.wf(),
            ret@ == self@.answer_command(msg, body),
    {
        if let BnicBody::Empty = body {
            self.finish(msg, RequestOutcome::Answered { response_len: msg.room })
        } else {
            HwcChannel { phase: Phase::BnicReply { msg, body }, ..self }
        }
    }

    /// Takes up a work request.
    pub fn begin(
        self,
        oob: Option<HwcTxOob>,
        hdr: Option<RequestHeader>,
        req_len: usize,
        resp_len: usize,
        resp_hdr_len: usize,
        rqe_offset: u32,
    ) -> (ret: Self)
        requires
            self.wf(),
            self@.phase is Wait,
        ensures
            ret.wf(),
            ret@ == self@.begin(oob, hdr, req_len, resp_len, resp_hdr_len, rqe_offset),
    {
        let accepted = match self.control.accept(oob, hdr, req_len, resp_len, resp_hdr_len) {
            Ok(accepted) => accepted,
            Err(failure) => {
                return HwcChannel { phase: Phase::Failed(failure), ..self };
            },
        };
        let hdr = hdr.unwrap();
        let msg = Message { hdr, room: accepted.room, rqe_offset, resp_hdr_len };
        match accepted.target {
            Target::Core => HwcChannel { phase: Phase::DecodeCore { msg }, ..self },
            Target::Bnic => HwcChannel { phase: Phase::DecodeBnic { msg }, ..self },
            Target::UnknownDevice => self.refuse(msg, None),
        }
    }

    /// Services a core request.
    pub fn serve_core(self, req: HwcRequest) -> (ret: Self)
        requires
            self.wf(),
            self@.phase is DecodeCore,
        ensures
            ret.wf(),
            ret@ == self@.serve_core(req),
    {
        let mut control = self.control;
        match self.phase {
            Phase::DecodeCore { msg } => {
                match control.handle_req(msg.hdr.dev_id, req) {
                    Ok(step) => HwcChannel { control, phase: Phase::Core { msg, step } },
                    Err(_) => HwcChannel { control, phase: Phase::Wait }.refuse(msg, None),
                }
            },
            phase => HwcChannel { control, phase },
        }
    }

    /// Goes on once the work of a step is done.
    pub fn step_done(self, outcome: StepOutcome) -> (ret: Self)
        requires
            self.wf(),
            self@.phase is Core,
        ensures
            ret.wf(),
            ret@ == self@.step_done(outcome),
    {
        let control = self.control;
        match self.phase {
            Phase::Core { msg, step } => {
                match HwControl::after_action(&step, outcome) {
                    Ok(None) => HwcChannel { control, phase: Phase::Wait }.finish(
                        msg,
                        RequestOutcome::Answered { response_len: 0 },
                    ),
                    Ok(Some(body)) => HwcChannel {
                        control,
                        phase: Phase::CoreBody { msg, step, body },
                    },
                    Err(_) => HwcChannel { control, phase: Phase::Wait }.refuse(msg, None),
                }
            },
            phase => HwcChannel { control, phase },
        }
    }

    /// Goes on once the body of a response of `len` bytes is written, or could not be.
    pub fn core_body_written(self, written: bool, len: usize) -> (ret: Self)
        requires
            self.wf(),
            self@.phase is CoreBody,
            written ==> len <= self@.phase.message()->0.room,
        ensures
            ret.wf(),
            ret@ == self@.core_body_written(written, len),
    {
        let mut control = self.control;
        match self.phase {
            Phase::CoreBody { msg, step, body } => {
                match control.after_reply(&step, written) {
                    Ok(()) => HwcChannel { control, phase: Phase::Wait }.finish(
                        msg,
                        RequestOutcome::Answered { response_len: len },
                    ),
                    Err(_) => HwcChannel { control, phase: Phase::Wait }.refuse(msg, None),
                }
            },
            phase => HwcChannel { control, phase },
        }
    }

    /// Refuses a command whose response buffer could not be cleared.
    pub fn clear_failed(self) -> (ret: Self)
        requires
            self.wf(),
            self@.phase is DecodeBnic,
        ensures
            ret.wf(),
            ret@ == self@.refuse(self@.phase.message()->0, None),
            ret@ == self@.clear_failed(),
    {
        let control = self.control;
        match self.phase {
            Phase::DecodeBnic { msg } => HwcChannel { control, phase: Phase::Wait }.refuse(
                msg,
                None,
            ),
            phase => HwcChannel { control, phase },
        }
    }

    /// Services a command of the network client.
    pub fn serve_bnic(self, nic: &mut BasicNic, req: BnicRequest) -> (ret: Self)
        requires
            self.wf(),
            self@.phase is DecodeBnic,
            req is PfCreateFilter ==> old(nic)@.next_filter_handle < u64::MAX,
        ensures
            ret.wf(),
            (ret@, final(nic)@) == self@.serve_bnic(old(nic)@, req),
            ret@.matches_nic(final(nic)@),
    {
        let control = self.control;
        match self.phase {
            Phase::DecodeBnic { msg } => {
                proof {
                    if req is ConfigVportRx {
                        assert(nic.vports.len() == nic@.vports.len());
                        crate::nic_laws::planned_queues_fit_the_pairs(
                            nic@,
                            control.state@,
                            msg.hdr.req.msg_version,
                            req->ConfigVportRx_0,
                        );
                    }
                }
                let step = nic.handle_req(&control.state, msg.hdr.req.msg_version, req);
                let idle = HwcChannel { control, phase: Phase::Wait };
                match step {
                    Err(err) => idle.refuse(msg, err.status()),
                    Ok(BnicStep::Reply(body)) => idle.answer_command(msg, body),
                    Ok(BnicStep::AllocQueues(alloc)) => HwcChannel {
                        phase: Phase::AllocQueues { msg, alloc },
                        ..idle
                    },
                    Ok(BnicStep::FreeQueues { is_send, wq_id, cq_id }) => HwcChannel {
                        phase: Phase::FreeQueues { msg, is_send, wq_id, cq_id },
                        ..idle
                    },
                    Ok(BnicStep::Fence { cq_id, wq_id, route }) => HwcChannel {
                        phase: Phase::Fence { msg, cq_id, wq_id, route },
                        ..idle
                    },
                    Ok(BnicStep::Steer(steering)) => HwcChannel {
                        phase: Phase::StopEndpoint { msg, steering },
                        ..idle
                    },
                }
            },
            phase => HwcChannel { control, phase },
        }
    }
}

impl HwcChannel {
    /// Goes on once two queues were allocated (`None` for one that could not be).
    pub fn queues_allocated(self, nic: &mut BasicNic, wq: Option<u32>, cq: Option<u32>) -> (ret:
        Self)
        requires
            self.wf(),
            self@.phase is AllocQueues,
            self@.matches_nic(old(nic)@),
            old(nic)@.next_wq_obj < u64::MAX,
        ensures
            ret.wf(),
            (ret@, final(nic)@) == self@.queues_allocated(old(nic)@, wq, cq),
    {
        let control = self.control;
        match self.phase {
            Phase::AllocQueues { msg, alloc } => {
                match nic.queues_allocated(&alloc, wq, cq) {
                    Ok(body) => HwcChannel {
                        control,
                        phase: Phase::WqObjBody { msg, alloc, body },
                    },
                    Err(err) => HwcChannel { control, phase: Phase::Wait }.refuse(
                        msg,
                        err.status(),
                    ),
                }
            },
            phase => HwcChannel { control, phase },
        }
    }

    /// Goes on once the response that names two queues is written, or could not be. Each queue takes
    /// its own region, so that they cannot share one.
    pub fn wq_obj_written(self, written: bool) -> (ret: Self)
        requires
            self.wf(),
            self@.phase is WqObjBody,
            written ==> !shares_a_region(self@.phase),
        ensures
            ret.wf(),
            ret@ == self@.wq_obj_written(written),
    {
        let mut control = self.control;
        match self.phase {
            Phase::WqObjBody { msg, alloc, body } => {
                match BasicNic::wq_obj_written(&mut control.state, &alloc, written) {
                    Ok(()) => HwcChannel { control, phase: Phase::Wait }.finish(
                        msg,
                        RequestOutcome::Answered { response_len: msg.room },
                    ),
                    Err(err) => HwcChannel { control, phase: Phase::Wait }.refuse(
                        msg,
                        err.status(),
                    ),
                }
            },
            phase => HwcChannel { control, phase },
        }
    }

    /// Goes on once a fence was routed to a task, or there was none to take it.
    pub fn fence_routed(self, routed: bool) -> (ret: Self)
        requires
            self.wf(),
            self@.phase is Fence,
        ensures
            ret.wf(),
            ret@ == self@.fence_routed(routed),
    {
        let control = self.control;
        match self.phase {
            Phase::Fence { msg, cq_id, wq_id, route } => {
                match BasicNic::fence_post(cq_id, wq_id, routed) {
                    Some(post) => HwcChannel { control, phase: Phase::PostFence { msg, post } },
                    None => HwcChannel { control, phase: Phase::Wait }.finish(
                        msg,
                        RequestOutcome::Answered { response_len: msg.room },
                    ),
                }
            },
            phase => HwcChannel { control, phase },
        }
    }

    /// Ends a command that has no response body: its queues are freed, or its fence is posted.
    pub fn finished(self) -> (ret: Self)
        requires
            self.wf(),
            self@.phase is FreeQueues || self@.phase is PostFence,
        ensures
            ret.wf(),
            ret@ == self@.finish(
                self@.phase.message()->0,
                RequestOutcome::Answered { response_len: self@.phase.message()->0.room },
            ),
            ret@ == self@.finished(),
    {
        let control = self.control;
        match self.phase {
            Phase::FreeQueues { msg, .. } | Phase::PostFence { msg, .. } => HwcChannel {
                control,
                phase: Phase::Wait,
            }.finish(msg, RequestOutcome::Answered { response_len: msg.room }),
            phase => HwcChannel { control, phase },
        }
    }

    /// Goes on with a receive configuration once the endpoint has stopped, if it was to be.
    pub fn endpoint_stopped(self) -> (ret: Self)
        requires
            self.wf(),
            self@.phase is StopEndpoint,
        ensures
            ret.wf(),
            ret@ == self@.endpoint_stopped(),
    {
        let control = self.control;
        match self.phase {
            Phase::StopEndpoint { msg, steering } => {
                let RxSteering { vport, stop_endpoint: _, start, link, body } = steering;
                match start {
                    StartPlan::NotNeeded => {
                        let tasks: Vec<TaskPlan> = Vec::new();
                        assert(tasks@.map_values(|task: TaskPlan| task@) =~= Seq::<
                            TaskView,
                        >::empty());
                        HwcChannel { control, phase: Phase::RunTasks { msg, tasks, link, body } }
                    },
                    StartPlan::Failed(_) => HwcChannel { control, phase: Phase::Wait }.refuse(
                        msg,
                        None,
                    ),
                    StartPlan::Start(plan) => HwcChannel {
                        control,
                        phase: Phase::StartBackend { msg, vport, plan, link, body },
                    },
                }
            },
            phase => HwcChannel { control, phase },
        }
    }

    /// Goes on once the backend provided that many queues (`None` if it failed).
    pub fn backend_provided(self, nic: &mut BasicNic, provided: Option<usize>) -> (ret: Self)
        requires
            self.wf(),
            self@.phase is StartBackend,
            self@.matches_nic(old(nic)@),
        ensures
            ret.wf(),
            (ret@, final(nic)@) == self@.backend_provided(old(nic)@, provided),
    {
        let control = self.control;
        match self.phase {
            Phase::StartBackend { msg, vport, plan, link, body } => {
                match nic.start_vport_datapath(vport, &plan, provided) {
                    Ok(tasks) => HwcChannel {
                        control,
                        phase: Phase::RunTasks { msg, tasks, link, body },
                    },
                    Err(err) => HwcChannel { control, phase: Phase::Wait }.refuse(
                        msg,
                        err.status(),
                    ),
                }
            },
            phase => HwcChannel { control, phase },
        }
    }

    /// Goes on once the tasks run and the link event is posted.
    pub fn tasks_started(self) -> (ret: Self)
        requires
            self.wf(),
            self@.phase is RunTasks,
        ensures
            ret.wf(),
            self@.phase matches PhaseView::RunTasks { msg, body, .. } ==> ret@
                == self@.answer_command(msg, body),
            ret@ == self@.tasks_started(),
    {
        let control = self.control;
        match self.phase {
            Phase::RunTasks { msg, tasks: _, link: _, body } => HwcChannel {
                control,
                phase: Phase::Wait,
            }.answer_command(msg, body),
            phase => HwcChannel { control, phase },
        }
    }

    /// Goes on once the body of a response to a command is written, or could not be.
    pub fn bnic_body_written(self, written: bool) -> (ret: Self)
        requires
            self.wf(),
            self@.phase is BnicReply,
        ensures
            ret.wf(),
            self@.phase matches PhaseView::BnicReply { msg, .. } ==> ret@ == if written {
                self@.finish(msg, RequestOutcome::Answered { response_len: msg.room })
            } else {
                self@.refuse(msg, None)
            },
            ret@ == self@.bnic_body_written(written),
    {
        let control = self.control;
        match self.phase {
            Phase::BnicReply { msg, body: _ } => {
                let idle = HwcChannel { control, phase: Phase::Wait };
                if written {
                    idle.finish(msg, RequestOutcome::Answered { response_len: msg.room })
                } else {
                    idle.refuse(msg, None)
                }
            },
            phase => HwcChannel { control, phase },
        }
    }

    /// Goes on once the header of a response is written; a header that cannot be written stops the
    /// channel.
    pub fn header_written(self, written: bool) -> (ret: Self)
        requires
            self.wf(),
            self@.phase is Finish,
        ensures
            ret.wf(),
            ret@ == self@.header_written(written),
    {
        let control = self.control;
        match self.phase {
            Phase::Finish { reply } => if written {
                HwcChannel { control, phase: Phase::Received { post: reply.received } }
            } else {
                HwcChannel { control, phase: Phase::Failed(ChannelFailure::HeaderWrite) }
            },
            phase => HwcChannel { control, phase },
        }
    }

    /// Waits for the next request.
    pub fn posted(self) -> (ret: Self)
        requires
            self.wf(),
            self@.phase is Received,
        ensures
            ret.wf(),
            ret@ == self@.due(PhaseView::Wait),
    {
        HwcChannel { phase: Phase::Wait, ..self }
    }
}

/// How many steps at most are left until a request is answered.
pub open spec fn steps_left(phase: PhaseView) -> nat {
    match phase {
        PhaseView::DecodeCore { .. } | PhaseView::DecodeBnic { .. } => 5,
        PhaseView::StopEndpoint { .. } => 4,
        PhaseView::StartBackend { .. } => 3,
        PhaseView::Core { .. }
        | PhaseView::AllocQueues { .. }
        | PhaseView::Fence { .. }
        | PhaseView::RunTasks { .. } => 2,
        PhaseView::CoreBody { .. }
        | PhaseView::WqObjBody { .. }
        | PhaseView::FreeQueues { .. }
        | PhaseView::PostFence { .. }
        | PhaseView::BnicReply { .. } => 1,
        _ => 0,
    }
}

/// Every request that is accepted is answered: each step on its way keeps the request and brings
/// the answer closer, and the answer, once due, is addressed to the request.
pub proof fn accepted_requests_are_answered(
    channel: ChannelView,
    nic: NicView,
    core: HwcRequest,
    command: BnicRequest,
    outcome: StepOutcome,
    queues: (Option<u32>, Option<u32>),
    provided: Option<usize>,
    ok: bool,
    len: usize,
)
    requires
        channel.phase.message() is Some,
    ensures
        ({
            let msg = channel.phase.message()->0;
            let next = match channel.phase {
                PhaseView::DecodeCore { .. } => channel.serve_core(core),
                PhaseView::DecodeBnic { .. } => if ok {
                    channel.serve_bnic(nic, command).0
                } else {
                    channel.refuse(msg, None)
                },
                PhaseView::Core { .. } => channel.step_done(outcome),
                PhaseView::CoreBody { .. } => channel.core_body_written(ok, len),
                PhaseView::AllocQueues { .. } => channel.queues_allocated(
                    nic,
                    queues.0,
                    queues.1,
                ).0,
                PhaseView::WqObjBody { .. } => channel.wq_obj_written(ok),
                PhaseView::Fence { .. } => channel.fence_routed(ok),
                PhaseView::StopEndpoint { .. } => channel.endpoint_stopped(),
                PhaseView::StartBackend { .. } => channel.backend_provided(nic, provided).0,
                PhaseView::RunTasks { body, .. } => channel.answer_command(msg, body),
                PhaseView::BnicReply { .. } if !ok => channel.refuse(msg, None),
                _ => channel.finish(msg, RequestOutcome::Answered { response_len: msg.room }),
            };
            match next.phase {
                PhaseView::Finish { header, .. } => {
                    &&& header.response == msg.hdr.resp
                    &&& header.dev_id == msg.hdr.dev_id
                    &&& header.activity_id == msg.hdr.activity_id
                },
                _ => next.phase.message() == Some(msg) && steps_left(next.phase) < steps_left(
                    channel.phase,
                ),
            }
        }),
{
}

} // verus!
