use vm_devices::bnic::{
    response_bytes, BasicNic, BnicBody, BnicConfig, BnicError, BnicFailure, BnicRequest,
    BnicStatus, BnicStep, RxSteerRequest, StartPlan, Tristate, VportConfig,
    MANA_DEFAULT_LINK_SPEED_MBPS,
};
use vm_devices::channel::{HwcChannel, Phase};
use vm_devices::completion::{Cqe, CqeType};
use vm_devices::dma::DmaError;
use vm_devices::hwc::{
    bnic_dev_id, ChannelFailure, ChannelQueues, DeviceId, DeviceType, EqEvent, HwControl, HwcError,
    HwcRequest, HwcResponse, HwcSetup, HwcStep, HwcTxOob, InitParameter, MessageHeader, QueueLimits,
    QueueType, RequestHeader, ResponseStatus, StepOutcome,
};

const LIMITS: QueueLimits = QueueLimits {
    max_sqs: 64,
    max_rqs: 64,
    max_cqs: 128,
    max_eqs: 64,
};
const RESP_HDR_LEN: usize = 32;
const CORE: DeviceId = DeviceId {
    ty: DeviceType::Other(0),
    instance: 0,
};

/// A control block over send queue 1, receive queue 2, event queue 3 and
/// completion queue 4, with the events that announce it.
fn control_and_events() -> (HwControl, Vec<EqEvent>) {
    let mut setup = HwcSetup::new(ChannelQueues {
        sq_gpa: 0x1000,
        rq_gpa: 0x2000,
        cq_gpa: 0x3000,
        eq_gpa: 0x4000,
        eq_msix: 0,
    });
    for id in 1..5 {
        setup.allocated(id);
    }
    HwControl::new(&setup, LIMITS)
}

fn control() -> HwControl {
    control_and_events().0
}

fn nic(max_queues: u16) -> BasicNic {
    BasicNic::new(
        vec![VportConfig {
            mac_address: [1, 2, 3, 4, 5, 6],
            max_queues,
            is_ordered: true,
        }],
        BnicConfig::default(),
    )
}

fn message(msg_type: u32, msg_size: u32) -> MessageHeader {
    MessageHeader {
        hdr_type: 0,
        msg_type,
        msg_version: 1,
        hwc_msg_id: 9,
        msg_size,
    }
}

fn request(msg_type: u32, dev_id: DeviceId, resp_size: u32) -> RequestHeader {
    RequestHeader {
        req: message(msg_type, 40),
        resp: message(msg_type, resp_size),
        dev_id,
        activity_id: 77,
    }
}

const OOB: Option<HwcTxOob> = Some(HwcTxOob {
    vscq_id: 4,
    vsq_id: 1,
});

/// Takes up a request with room for a large response.
fn begin(channel: HwcChannel, msg_type: u32, dev_id: DeviceId) -> HwcChannel {
    let hdr = request(msg_type, dev_id, 4096);
    channel.begin(OOB, Some(hdr), 100, 4096, RESP_HDR_LEN, 5)
}

/// The status of the response that is due, and how long the response is.
fn finish(channel: HwcChannel) -> (HwcChannel, ResponseStatus, u32) {
    let (status, size) = match &channel.phase {
        Phase::Finish { reply } => {
            assert_eq!((reply.sent.cq_id, reply.sent.wq_id), (4, 1));
            assert!(reply.sent.is_send && matches!(reply.sent.cqe, Cqe::Empty));
            assert_eq!((reply.received.cq_id, reply.received.wq_id), (4, 2));
            assert_eq!(reply.header.activity_id, 77);
            assert_eq!(reply.header.response.hwc_msg_id, 9);
            match reply.received.cqe {
                Cqe::Hwc {
                    wqe_addr_low_or_offset,
                    tx_oob_data_size,
                } => {
                    assert_eq!(wqe_addr_low_or_offset, 5);
                    (reply.header.status, tx_oob_data_size)
                }
                _ => panic!("no response"),
            }
        }
        _ => panic!("no response is due"),
    };
    let channel = channel.header_written(true);
    assert!(matches!(channel.phase, Phase::Received { .. }));
    (channel.posted(), status, size)
}

/// Services a core request whose work succeeds.
fn serve(channel: HwcChannel, dev_id: DeviceId, req: HwcRequest) -> (HwcChannel, CoreResult) {
    let channel = begin(channel, 1, dev_id).serve_core(req);
    let outcome = match &channel.phase {
        Phase::Core { step, .. } => match step {
            HwcStep::AllocEq { .. } => StepOutcome::Allocated { queue_index: 42 },
            _ => StepOutcome::Done,
        },
        _ => {
            let (channel, status, _) = finish(channel);
            return (channel, CoreResult { status, body: None });
        }
    };
    let channel = channel.step_done(outcome);
    let body = match &channel.phase {
        Phase::CoreBody { body, .. } => Some(*body),
        _ => None,
    };
    let channel = if body.is_some() {
        channel.core_body_written(true, 16)
    } else {
        channel
    };
    let (channel, status, size) = finish(channel);
    assert_eq!(size, if body.is_some() { 48 } else { 32 });
    (channel, CoreResult { status, body })
}

struct CoreResult {
    status: ResponseStatus,
    body: Option<HwcResponse>,
}

fn region_of(result: CoreResult) -> u64 {
    match result.body {
        Some(HwcResponse::DmaRegion { gdma_region }) => gdma_region,
        _ => panic!("no region"),
    }
}

fn create_region(channel: HwcChannel, pages: u64) -> (HwcChannel, u64) {
    let (channel, result) = serve(
        channel,
        CORE,
        HwcRequest::CreateDmaRegion {
            offset_in_page: 0,
            length: pages * 4096,
            page_count: pages as u32,
            pages: (0..pages).map(|i| i * 4096).collect(),
        },
    );
    (channel, region_of(result))
}

#[test]
fn channel_is_announced() {
    let (control, events) = control_and_events();
    assert_eq!((control.sq_id, control.rq_id, control.cq_id), (1, 2, 4));
    assert_eq!(control.state.hwc_eq_id, 3);
    assert_eq!(events.len(), 11);
    assert!(matches!(events[0], EqEvent::InitEqIdDb { eq_id: 3, doorbell: 0 }));
    let values: Vec<(InitParameter, u32)> = events[1..10]
        .iter()
        .map(|event| match event {
            EqEvent::InitData { ty, value } => (*ty, *value),
            _ => panic!("no parameter"),
        })
        .collect();
    assert_eq!(
        values,
        vec![
            (InitParameter::CqId, 4),
            (InitParameter::RqId, 2),
            (InitParameter::SqId, 1),
            (InitParameter::QueueDepth, 1),
            (InitParameter::MaxRequest, 0x1000),
            (InitParameter::MaxResponse, 0x1000),
            (InitParameter::MaxNumCqs, 128),
            (InitParameter::PdId, 0),
            (InitParameter::GpaMkey, 0),
        ]
    );
    assert!(matches!(events[10], EqEvent::InitDone));
}

#[test]
fn malformed_work_requests_stop_the_channel() {
    let hdr = request(1, CORE, 4096);
    let failure = |oob: Option<HwcTxOob>, hdr: Option<RequestHeader>, req_len: usize, resp_len: usize| {
        let channel = HwcChannel::new(control());
        match channel.begin(oob, hdr, req_len, resp_len, RESP_HDR_LEN, 0).phase {
            Phase::Failed(failure) => Some(failure),
            _ => None,
        }
    };
    let oob = |vscq_id: u32, vsq_id: u32| Some(HwcTxOob { vscq_id, vsq_id });
    assert_eq!(failure(None, Some(hdr), 100, 4096), Some(ChannelFailure::TxOob));
    assert_eq!(failure(oob(5, 1), Some(hdr), 100, 4096), Some(ChannelFailure::MismatchedCq));
    assert_eq!(failure(oob(4, 2), Some(hdr), 100, 4096), Some(ChannelFailure::MismatchedSq));
    assert_eq!(failure(OOB, None, 100, 4096), Some(ChannelFailure::Header));
    assert_eq!(failure(OOB, Some(hdr), 4097, 4096), Some(ChannelFailure::RequestTooLong));
    let long = request(1, CORE, 4097);
    assert_eq!(failure(OOB, Some(long), 100, 8192), Some(ChannelFailure::ResponseTooLong));
    assert_eq!(failure(OOB, Some(hdr), 100, 31), Some(ChannelFailure::ResponseTooSmall));
    let short = request(1, CORE, 31);
    assert_eq!(failure(OOB, Some(short), 100, 4096), Some(ChannelFailure::ResponseTooSmall));
    assert_eq!(failure(OOB, Some(hdr), 4096, 32), None);
}

#[test]
fn unwritable_header_stops_the_channel() {
    let channel = begin(HwcChannel::new(control()), 1, CORE).serve_core(HwcRequest::Truncated);
    let channel = channel.header_written(false);
    assert!(matches!(
        channel.phase,
        Phase::Failed(ChannelFailure::HeaderWrite)
    ));
}

#[test]
fn requests_go_to_their_target() {
    let start = || HwcChannel::new(control());
    assert!(matches!(begin(start(), 0xffff, CORE).phase, Phase::DecodeCore { .. }));
    // No registration is needed for a command of the network client.
    assert!(matches!(
        begin(start(), 0x2_0001, bnic_dev_id()).phase,
        Phase::DecodeBnic { .. }
    ));
    let elsewhere = DeviceId {
        instance: 1,
        ..bnic_dev_id()
    };
    let (_, status, size) = finish(begin(start(), 0x2_0001, elsewhere));
    assert_eq!((status, size), (ResponseStatus::Failed, 32));
}

#[test]
fn core_queries_are_answered() {
    let channel = HwcChannel::new(control());
    let (channel, result) = serve(
        channel,
        CORE,
        HwcRequest::VerifyVfDriverVersion { protocol_ver_min: 6 },
    );
    assert_eq!(
        result.body,
        Some(HwcResponse::VerifyVersion {
            gdma_protocol_ver: 6,
            pf_cap_flags: 0
        })
    );
    let (channel, result) = serve(channel, CORE, HwcRequest::QueryMaxResources);
    assert_eq!(
        result.body,
        Some(HwcResponse::MaxResources {
            status: 0,
            max_sq: 64,
            max_rq: 64,
            max_cq: 128,
            max_eq: 64,
            max_db: 1,
            max_mst: 1,
            max_cq_mod_ctx: 0,
            max_mod_cq: 0,
            max_msix: 64
        })
    );
    let (_, result) = serve(channel, CORE, HwcRequest::ListDevices);
    match result.body {
        Some(HwcResponse::Devices {
            num_of_devs,
            first,
            second,
        }) => {
            assert_eq!(num_of_devs, 2);
            assert_eq!(first.ty, DeviceType::Hwc);
            assert_eq!((second.ty, second.instance), (DeviceType::Mana, 0));
        }
        _ => panic!("no devices"),
    }
}

#[test]
fn registration_is_paired() {
    let channel = HwcChannel::new(control());
    let id = bnic_dev_id();
    let (channel, result) = serve(channel, id, HwcRequest::DeregisterDevice);
    assert_eq!(result.status, ResponseStatus::Failed);
    let (channel, result) = serve(channel, CORE, HwcRequest::RegisterDevice);
    assert_eq!(result.status, ResponseStatus::Failed);
    let (channel, result) = serve(channel, id, HwcRequest::RegisterDevice);
    assert_eq!(
        result.body,
        Some(HwcResponse::Registered {
            pdid: 0,
            gpa_mkey: 0,
            db_id: 0
        })
    );
    let (channel, result) = serve(channel, id, HwcRequest::RegisterDevice);
    assert_eq!(result.status, ResponseStatus::Failed);
    let (channel, result) = serve(channel, id, HwcRequest::DeregisterDevice);
    assert_eq!(result.status, ResponseStatus::Success);
    assert!(!channel.control.bnic_enabled);
}

#[test]
fn regions_are_created_and_destroyed() {
    let channel = HwcChannel::new(control());
    let (channel, first) = create_region(channel, 1);
    let (channel, second) = create_region(channel, 2);
    assert_eq!((first, second), (1, 2));
    let destroy = |gdma_region: u64| HwcRequest::DestroyDmaRegion { gdma_region };
    let (channel, result) = serve(channel, CORE, destroy(first));
    assert_eq!(result.status, ResponseStatus::Success);
    let (channel, result) = serve(channel, CORE, destroy(first));
    assert_eq!(result.status, ResponseStatus::Failed);
    let (channel, result) = serve(channel, CORE, destroy(0));
    assert_eq!(result.status, ResponseStatus::Failed);
    // A released handle is given out again, the last one first.
    let (channel, result) = serve(channel, CORE, destroy(second));
    assert_eq!(result.status, ResponseStatus::Success);
    let (channel, third) = create_region(channel, 1);
    let (_, fourth) = create_region(channel, 1);
    assert_eq!((third, fourth), (second, first));
}

#[test]
fn split_page_list_is_assembled() {
    let channel = HwcChannel::new(control());
    let (channel, result) = serve(
        channel,
        CORE,
        HwcRequest::CreateDmaRegion {
            offset_in_page: 0,
            length: 8192,
            page_count: 2,
            pages: vec![0x5000],
        },
    );
    let gdma_region = region_of(result);
    let create_queue = || HwcRequest::CreateQueue {
        queue_type: QueueType::Eq,
        gdma_region,
        queue_size: 8192,
        eq_pci_msix_index: 3,
    };
    let add = |pages: Vec<u64>| HwcRequest::DmaRegionAddPages { gdma_region, pages };
    // The region is held incomplete until every page has arrived.
    let (channel, result) = serve(channel, CORE, create_queue());
    assert_eq!(result.status, ResponseStatus::Failed);
    let (channel, result) = serve(channel, CORE, add(vec![]));
    assert_eq!(result.status, ResponseStatus::Failed);
    let (channel, result) = serve(channel, CORE, add(vec![0x6000, 0x7000]));
    assert_eq!(result.status, ResponseStatus::Failed);
    let (channel, result) = serve(channel, CORE, add(vec![0x9000]));
    assert_eq!(result.status, ResponseStatus::Success);
    let (channel, result) = serve(channel, CORE, add(vec![0xa000]));
    assert_eq!(result.status, ResponseStatus::Failed);
    // The assembled region can be bound to a queue of its size, once.
    let channel = begin(channel, 1, CORE).serve_core(create_queue());
    match &channel.phase {
        Phase::Core {
            step: HwcStep::AllocEq { region, msix, .. },
            ..
        } => {
            assert_eq!(region.range().gpns(), &[5, 9]);
            assert_eq!(*msix, 3);
        }
        _ => panic!("no queue is to be allocated"),
    }
    let channel = channel.step_done(StepOutcome::Allocated { queue_index: 7 });
    assert!(matches!(
        channel.phase,
        Phase::CoreBody {
            body: HwcResponse::Queue { queue_index: 7 },
            ..
        }
    ));
    let (channel, status, size) = finish(channel.core_body_written(true, 4));
    assert_eq!((status, size), (ResponseStatus::Success, 36));
    let (_, result) = serve(channel, CORE, create_queue());
    assert_eq!(result.status, ResponseStatus::Failed);
}

#[test]
fn region_that_does_not_add_up_is_kept_but_refused() {
    let channel = HwcChannel::new(control());
    let (channel, result) = serve(
        channel,
        CORE,
        HwcRequest::CreateDmaRegion {
            offset_in_page: 0,
            length: 8192,
            page_count: 2,
            pages: vec![0],
        },
    );
    let gdma_region = region_of(result);
    let mut control = channel.control;
    let add = HwcRequest::DmaRegionAddPages {
        gdma_region,
        pages: vec![1],
    };
    assert_eq!(
        control.handle_req(CORE, add).err(),
        Some(HwcError::Region(DmaError::UnalignedPage))
    );
    assert_eq!(
        control.state.get_dma_region(gdma_region, 8192).err(),
        Some(HwcError::RegionIncomplete)
    );
    assert_eq!(control.state.remove_dma_region(gdma_region), Ok(()));
}

#[test]
fn refused_core_requests_say_why() {
    let mut control = control();
    let mut err = |req: HwcRequest| control.handle_req(CORE, req).err();
    assert_eq!(err(HwcRequest::Truncated), Some(HwcError::Truncated));
    assert_eq!(
        err(HwcRequest::Unsupported { msg_type: 99 }),
        Some(HwcError::UnsupportedMessage(99))
    );
    assert_eq!(err(HwcRequest::RegisterDevice), Some(HwcError::InvalidDevice));
    assert_eq!(
        err(HwcRequest::DestroyDmaRegion { gdma_region: 1 }),
        Some(HwcError::RegionNotFound)
    );
    let queue = |queue_type: QueueType| HwcRequest::CreateQueue {
        queue_type,
        gdma_region: 1,
        queue_size: 4096,
        eq_pci_msix_index: 0,
    };
    assert_eq!(err(queue(QueueType::Cq)), Some(HwcError::UnsupportedQueueType));
    assert_eq!(err(queue(QueueType::Eq)), Some(HwcError::RegionNotFound));
    let disable = HwcRequest::DisableQueue {
        queue_type: QueueType::Sq,
        queue_index: 0,
    };
    assert_eq!(err(disable), Some(HwcError::UnsupportedQueueType));
    assert_eq!(
        err(HwcRequest::DestroyPd { pd_handle: 1 }),
        Some(HwcError::UnknownPd)
    );
    assert_eq!(
        err(HwcRequest::CreateMr { pd_handle: 1 }),
        Some(HwcError::UnknownPd)
    );
    assert_eq!(
        err(HwcRequest::DestroyMr { mr_handle: 1 }),
        Some(HwcError::UnknownMr)
    );
    let create = |length: u64| HwcRequest::CreateDmaRegion {
        offset_in_page: 0,
        length,
        page_count: 1,
        pages: vec![0],
    };
    assert_eq!(
        err(create(4097)),
        Some(HwcError::Region(DmaError::NotEnoughPages))
    );
    assert!(err(create(4096)).is_none());
    let ready = HwcRequest::DmaRegionAddPages {
        gdma_region: 1,
        pages: vec![0],
    };
    assert_eq!(err(ready), Some(HwcError::RegionNotAwaitingPages));
    let small = HwcRequest::CreateQueue {
        queue_type: QueueType::Eq,
        gdma_region: 1,
        queue_size: 8192,
        eq_pci_msix_index: 0,
    };
    assert_eq!(err(small), Some(HwcError::RegionSizeMismatch));
}

#[test]
fn failed_work_is_refused() {
    let channel = HwcChannel::new(control());
    let (channel, gdma_region) = create_region(channel, 1);
    let create = HwcRequest::CreateQueue {
        queue_type: QueueType::Eq,
        gdma_region,
        queue_size: 4096,
        eq_pci_msix_index: 0,
    };
    let channel = begin(channel, 1, CORE).serve_core(create);
    let (channel, status, _) = finish(channel.step_done(StepOutcome::Failed));
    assert_eq!(status, ResponseStatus::Failed);
    // The region is still there.
    assert!(channel.control.state.get_dma_region(gdma_region, 4096).is_ok());
    let free = HwcRequest::DisableQueue {
        queue_type: QueueType::Eq,
        queue_index: 5,
    };
    let channel = begin(channel, 1, CORE).serve_core(free);
    assert!(matches!(
        channel.phase,
        Phase::Core {
            step: HwcStep::FreeEq { queue_index: 5 },
            ..
        }
    ));
    let (channel, status, _) = finish(channel.step_done(StepOutcome::Failed));
    assert_eq!(status, ResponseStatus::Failed);
    let move_eq = HwcRequest::ChangeMsixForEq {
        queue_index: 5,
        msix: 6,
    };
    let channel = begin(channel, 1, CORE).serve_core(move_eq);
    assert!(matches!(
        channel.phase,
        Phase::Core {
            step: HwcStep::UpdateEqMsix {
                queue_index: 5,
                msix: 6
            },
            ..
        }
    ));
    let (channel, status, _) = finish(channel.step_done(StepOutcome::Done));
    assert_eq!(status, ResponseStatus::Success);
    // A response that cannot be written leaves the new protection domain behind.
    let channel = begin(channel, 1, CORE).serve_core(HwcRequest::CreatePd);
    let channel = channel.step_done(StepOutcome::Done).core_body_written(false, 0);
    let (channel, status, size) = finish(channel);
    assert_eq!((status, size), (ResponseStatus::Failed, 32));
    assert!(channel.control.state.pds.contains(0));
}

#[test]
fn events_are_generated() {
    let channel = HwcChannel::new(control());
    let test = HwcRequest::GenerateTestEqe { queue_index: 8 };
    let channel = begin(channel, 1, CORE).serve_core(test);
    match &channel.phase {
        Phase::Core {
            step: HwcStep::PostEq(post),
            ..
        } => assert!(post.eq_id == 8 && matches!(post.event, EqEvent::Test)),
        _ => panic!("no event"),
    }
    let (channel, status, size) = finish(channel.step_done(StepOutcome::Done));
    assert_eq!((status, size), (ResponseStatus::Success, 32));
    let reset = HwcRequest::GenerateResetRequestEqe {
        queue_index: 8,
        data: vec![1, 2, 3],
    };
    let channel = begin(channel, 1, CORE).serve_core(reset);
    match &channel.phase {
        Phase::Core {
            step: HwcStep::PostEq(post),
            ..
        } => assert!(
            matches!(&post.event, EqEvent::ResetRequest { data: Some(data) } if *data == [1, 2, 3])
        ),
        _ => panic!("no event"),
    }
    let own = channel.control.state.post_hwc_reset_request();
    assert!(own.eq_id == 3 && matches!(own.event, EqEvent::ResetRequest { data: None }));
    let link = channel.control.state.post_vport_link_status(0x0403_0201, true);
    assert!(matches!(
        link.event,
        EqEvent::LinkStatus {
            vport: [1, 2, 3],
            connected: true
        }
    ));
}

#[test]
fn pd_and_mr_handles_are_paired() {
    let channel = HwcChannel::new(control());
    let (channel, result) = serve(channel, CORE, HwcRequest::CreatePd);
    assert_eq!(
        result.body,
        Some(HwcResponse::Pd {
            pd_handle: 1,
            pd_id: 1
        })
    );
    let create_mr = |pd_handle: u64| HwcRequest::CreateMr { pd_handle };
    let (channel, result) = serve(channel, CORE, create_mr(2));
    assert_eq!(result.status, ResponseStatus::Failed);
    let (channel, result) = serve(channel, CORE, create_mr(1));
    assert_eq!(
        result.body,
        Some(HwcResponse::Mr {
            mr_handle: 1,
            lkey: 1,
            rkey: 1
        })
    );
    let (channel, result) = serve(channel, CORE, HwcRequest::DestroyMr { mr_handle: 1 });
    assert_eq!(result.status, ResponseStatus::Success);
    let (channel, result) = serve(channel, CORE, HwcRequest::DestroyPd { pd_handle: 1 });
    assert_eq!(result.status, ResponseStatus::Success);
    let (channel, result) = serve(channel, CORE, HwcRequest::DestroyPd { pd_handle: 1 });
    assert_eq!(result.status, ResponseStatus::Failed);
    let (_, result) = serve(channel, CORE, create_mr(1));
    assert_eq!(result.status, ResponseStatus::Failed);
}

/// Takes up a command of the network client.
fn begin_bnic(channel: HwcChannel) -> HwcChannel {
    begin(channel, 0x2_0001, bnic_dev_id())
}

/// Services a command that is answered at once.
fn bnic(channel: HwcChannel, nic: &mut BasicNic, req: BnicRequest) -> (HwcChannel, BnicResult) {
    let channel = begin_bnic(channel).serve_bnic(nic, req);
    let body = match &channel.phase {
        Phase::BnicReply { body, .. } => Some(*body),
        _ => None,
    };
    let channel = if body.is_some() {
        channel.bnic_body_written(true)
    } else {
        channel
    };
    let (channel, status, size) = finish(channel);
    // All of the guest's buffer counts as the response to a command.
    let ok = status == ResponseStatus::Success;
    assert_eq!(size, if ok { 4096 } else { 32 });
    (channel, BnicResult { status, body })
}

struct BnicResult {
    status: ResponseStatus,
    body: Option<BnicBody>,
}

/// Creates a work-queue object over two fresh regions.
fn create_wq(
    channel: HwcChannel,
    nic: &mut BasicNic,
    wq_type: QueueType,
    wq_id: u32,
    cq_id: u32,
) -> (HwcChannel, u64) {
    let (channel, wq_gdma_region) = create_region(channel, 1);
    let (channel, cq_gdma_region) = create_region(channel, 2);
    let create = BnicRequest::CreateWqObj {
        wq_type,
        vport: 0,
        wq_gdma_region,
        wq_size: 4096,
        cq_gdma_region,
        cq_size: 8192,
        cq_parent_qid: 3,
    };
    let channel = begin_bnic(channel).serve_bnic(nic, create);
    match &channel.phase {
        Phase::AllocQueues { alloc, .. } => {
            assert_eq!(alloc.is_send, wq_type == QueueType::Sq);
            assert_eq!(alloc.wq_region.len(), 4096);
            assert_eq!(alloc.cq_region.len(), 8192);
            assert_eq!(alloc.cq_parent_qid, 3);
        }
        _ => panic!("no queues are to be allocated"),
    }
    let channel = channel.queues_allocated(nic, Some(wq_id), Some(cq_id));
    let handle = match &channel.phase {
        Phase::WqObjBody {
            body:
                BnicBody::WqObj {
                    wq_id: wq,
                    cq_id: cq,
                    wq_obj,
                },
            ..
        } => {
            assert_eq!((*wq, *cq), (wq_id, cq_id));
            *wq_obj
        }
        _ => panic!("no object"),
    };
    let (channel, status, _) = finish(channel.wq_obj_written(true));
    assert_eq!(status, ResponseStatus::Success);
    // The queues own their regions now.
    assert!(channel.control.state.get_dma_region(wq_gdma_region, 4096).is_err());
    assert!(channel.control.state.get_dma_region(cq_gdma_region, 8192).is_err());
    (channel, handle)
}

fn steer() -> RxSteerRequest {
    RxSteerRequest {
        vport: 0,
        num_indir_entries: 0,
        indir_tab_offset: 0,
        rx_enable: Tristate::True,
        rss_enable: Tristate::False,
        update_hashkey: 0,
        update_indir_tab: 0,
        hashkey: [0; 40],
        fixed_len: 112,
        tail: vec![],
    }
}

/// Configures the receive path; the backend provides what it is asked for.
/// Returns the status and the links that were reported.
fn config_rx(
    channel: HwcChannel,
    nic: &mut BasicNic,
    req: RxSteerRequest,
) -> (HwcChannel, ResponseStatus, Vec<bool>) {
    let mut links = Vec::new();
    let mut channel = begin_bnic(channel).serve_bnic(nic, BnicRequest::ConfigVportRx(req));
    if matches!(channel.phase, Phase::StopEndpoint { .. }) {
        channel = channel.endpoint_stopped();
    }
    if let Phase::StartBackend { plan, .. } = &channel.phase {
        let provided = plan.backend_queues;
        channel = channel.backend_provided(nic, Some(provided));
    }
    if let Phase::RunTasks { link, .. } = &channel.phase {
        if let Some(post) = link {
            match post.event {
                EqEvent::LinkStatus { connected, .. } => links.push(connected),
                _ => panic!("no link event"),
            }
        }
        channel = channel.tasks_started();
    }
    if matches!(channel.phase, Phase::BnicReply { .. }) {
        channel = channel.bnic_body_written(true);
    }
    let (channel, status, _) = finish(channel);
    (channel, status, links)
}

#[test]
fn device_configuration_is_reported() {
    let mut nic = nic(1);
    let channel = HwcChannel::new(control());
    let (channel, result) = bnic(channel, &mut nic, BnicRequest::QueryDevConfig);
    assert!(matches!(
        result.body,
        Some(BnicBody::DevConfig {
            mana_direct: true,
            max_num_vports: 1,
            bm_hostmode: 0,
            max_num_eqs: 64,
            adapter_mtu: 1514,
            adapter_link_speed_mbps: 0,
        })
    ));
    // An unconfigured speed is reported as the line rate.
    let (_, result) = bnic(channel, &mut nic, BnicRequest::QueryLinkConfig);
    assert!(matches!(
        result.body,
        Some(BnicBody::LinkConfig {
            qos_speed_mbps: MANA_DEFAULT_LINK_SPEED_MBPS,
            qos_unconfigured: 0,
            link_speed_mbps: 200_000,
        })
    ));
}

#[test]
fn configured_speed_and_hostmode_are_reported() {
    let mut nic = BasicNic::new(
        vec![VportConfig {
            mac_address: [0; 6],
            max_queues: 1,
            is_ordered: true,
        }],
        BnicConfig {
            adapter_link_speed_mbps: 400_000,
            bm_hostmode: true,
            pf_caps: false,
        },
    );
    let channel = HwcChannel::new(control());
    let (channel, result) = bnic(channel, &mut nic, BnicRequest::QueryDevConfig);
    assert!(matches!(
        result.body,
        Some(BnicBody::DevConfig {
            bm_hostmode: 1,
            adapter_link_speed_mbps: 400_000,
            ..
        })
    ));
    let (_, result) = bnic(channel, &mut nic, BnicRequest::QueryLinkConfig);
    assert!(matches!(
        result.body,
        Some(BnicBody::LinkConfig {
            link_speed_mbps: 400_000,
            ..
        })
    ));
}

#[test]
fn vport_configuration_is_clamped() {
    for (supported, advertised) in [(0, 1), (1, 1), (16, 16), (17, 16)] {
        let mut nic = nic(supported);
        let channel = HwcChannel::new(control());
        let query = BnicRequest::QueryVportConfig { vport_index: 0 };
        let (_, result) = bnic(channel, &mut nic, query);
        match result.body {
            Some(BnicBody::VportConfig {
                max_num_sq,
                max_num_rq,
                num_indirection_ent,
                mac_addr,
                vport,
            }) => {
                assert_eq!((max_num_sq, max_num_rq), (advertised, advertised));
                assert_eq!(num_indirection_ent, 128);
                assert_eq!(mac_addr, [1, 2, 3, 4, 5, 6]);
                assert_eq!(vport, 0);
            }
            _ => panic!("no configuration"),
        }
    }
}

#[test]
fn simple_commands_are_answered() {
    let mut nic = nic(1);
    let channel = HwcChannel::new(control());
    let tx = BnicRequest::ConfigVportTx { vport: 0 };
    let (channel, result) = bnic(channel, &mut nic, tx);
    assert!(matches!(
        result.body,
        Some(BnicBody::VportTx {
            tx_vport_offset: 0,
            short_form_allowed: 1
        })
    ));
    let stats = BnicRequest::QueryStats {
        requested_statistics: 0x55,
    };
    let (channel, result) = bnic(channel, &mut nic, stats);
    assert!(matches!(
        result.body,
        Some(BnicBody::Stats {
            reported_statistics: 0x55
        })
    ));
    let phy = BnicRequest::QueryPhyStat {
        requested_statistics: 0xaa,
    };
    let (channel, result) = bnic(channel, &mut nic, phy);
    assert!(matches!(
        result.body,
        Some(BnicBody::PhyStats {
            reported_statistics: 0xaa
        })
    ));
    let (channel, result) = bnic(channel, &mut nic, BnicRequest::QueryFilterCap);
    assert!(matches!(
        result.body,
        Some(BnicBody::FilterCap {
            max_num_filters: 1,
            max_num_rx_objects: 64
        })
    ));
    let state = BnicRequest::Vtl2QueryFilterState { vport: 0 };
    let (channel, result) = bnic(channel, &mut nic, state);
    assert!(matches!(
        result.body,
        Some(BnicBody::FilterState {
            direction_to_vtl0: 0
        })
    ));
    let (channel, result) = bnic(channel, &mut nic, BnicRequest::PfCreateVport);
    assert!(matches!(
        result.body,
        Some(BnicBody::PfVport { vport_handle: 0 })
    ));
    let filter = || BnicRequest::PfCreateFilter { vport_handle: 0 };
    let (channel, first) = bnic(channel, &mut nic, filter());
    let (channel, second) = bnic(channel, &mut nic, filter());
    assert!(matches!(
        (first.body, second.body),
        (
            Some(BnicBody::PfFilter { filter_handle: 1 }),
            Some(BnicBody::PfFilter { filter_handle: 2 })
        )
    ));
    let serial = BnicRequest::Vtl2AssignSerialNumber {
        vport: 0,
        serial_no: 6,
    };
    let (_, result) = bnic(channel, &mut nic, serial);
    assert_eq!(result.status, ResponseStatus::Success);
    assert_eq!(nic.vports[0].serial_no, 6);
}

#[test]
fn refused_commands_carry_their_status() {
    let mut nic = nic(1);
    let mut channel = HwcChannel::new(control());
    let create = |wq_type: QueueType, vport: u64| BnicRequest::CreateWqObj {
        wq_type,
        vport,
        wq_gdma_region: 1,
        wq_size: 4096,
        cq_gdma_region: 2,
        cq_size: 4096,
        cq_parent_qid: 0,
    };
    let destroy = |wq_type: QueueType| BnicRequest::DestroyWqObj {
        wq_type,
        wq_obj_handle: 99,
    };
    let cases = vec![
        (BnicRequest::ConfigVportTx { vport: 1 }, BnicStatus::InvalidVportHandle),
        (create(QueueType::Eq, 0), BnicStatus::UnsupportedQueueType),
        (create(QueueType::Sq, 1), BnicStatus::InvalidVportHandle),
        (create(QueueType::Sq, 0), BnicStatus::NotSetByHandler),
        (destroy(QueueType::Cq), BnicStatus::InvalidWqType),
        (destroy(QueueType::Rq), BnicStatus::InvalidWqHandle),
        (BnicRequest::FenceRq { wq_obj_handle: 99 }, BnicStatus::InvalidWqHandle),
        (
            BnicRequest::ConfigVportRx(RxSteerRequest { vport: 1, ..steer() }),
            BnicStatus::InvalidVportHandle,
        ),
        (BnicRequest::Vtl2MoveFilter, BnicStatus::NotSetByHandler),
        (BnicRequest::Vtl2QueryFilterState { vport: 1 }, BnicStatus::NotSetByHandler),
        (BnicRequest::PfCreateFilter { vport_handle: 7 }, BnicStatus::InvalidVportHandle),
        (BnicRequest::QueryVportConfig { vport_index: 1 }, BnicStatus::InvalidVportIndex),
        (
            BnicRequest::Vtl2AssignSerialNumber { vport: 1, serial_no: 0 },
            BnicStatus::NotSetByHandler,
        ),
        (BnicRequest::Truncated, BnicStatus::NotSetByHandler),
        (BnicRequest::Unsupported { msg_type: 0x2_000b }, BnicStatus::CommandUnsupported),
    ];
    for (req, expected) in cases {
        let (next, result) = bnic(channel, &mut nic, req);
        assert_eq!(result.status, ResponseStatus::Bnic(expected));
        channel = next;
    }
    // A buffer that cannot be cleared, or a body that does not fit, is the
    // client's default failure.
    let failed = begin_bnic(channel).clear_failed();
    let (channel, status, _) = finish(failed);
    assert_eq!(status, ResponseStatus::Bnic(BnicStatus::NotSetByHandler));
    let tx = BnicRequest::ConfigVportTx { vport: 0 };
    let unwritten = begin_bnic(channel).serve_bnic(&mut nic, tx).bnic_body_written(false);
    let (_, status, _) = finish(unwritten);
    assert_eq!(status, ResponseStatus::Bnic(BnicStatus::NotSetByHandler));
}

#[test]
fn response_buffer_is_cleared_behind_the_body() {
    assert_eq!(response_bytes(5, &[1, 2], false).ok(), Some(vec![1, 2, 0, 0, 0]));
    assert_eq!(response_bytes(2, &[1, 2, 3], true).ok(), Some(vec![1, 2]));
    assert_eq!(
        response_bytes(2, &[1, 2, 3], false).err(),
        Some(BnicError::Plain(BnicFailure::ResponseWrite))
    );
    let stats = BnicBody::Stats {
        reported_statistics: 0,
    };
    assert!(stats.truncates());
    assert!(!BnicBody::PfVport { vport_handle: 0 }.truncates());
}

#[test]
fn work_queue_objects_have_handles_of_their_own() {
    let mut nic = nic(1);
    let channel = HwcChannel::new(control());
    let (channel, first) = create_wq(channel, &mut nic, QueueType::Rq, 10, 11);
    let (channel, second) = create_wq(channel, &mut nic, QueueType::Rq, 12, 13);
    let (mut channel, send) = create_wq(channel, &mut nic, QueueType::Sq, 14, 15);
    assert!(first != second && second != send && first != send);
    for (handle, wq_type, ids) in [
        (first, QueueType::Rq, (10, 11)),
        (second, QueueType::Rq, (12, 13)),
        (send, QueueType::Sq, (14, 15)),
    ] {
        let destroy = BnicRequest::DestroyWqObj {
            wq_type,
            wq_obj_handle: handle,
        };
        channel = begin_bnic(channel).serve_bnic(&mut nic, destroy);
        match &channel.phase {
            Phase::FreeQueues {
                is_send,
                wq_id,
                cq_id,
                ..
            } => {
                assert_eq!(*is_send, wq_type == QueueType::Sq);
                assert_eq!((*wq_id, *cq_id), ids);
            }
            _ => panic!("no queues are to be freed"),
        }
        channel = finish(channel.finished()).0;
        let again = BnicRequest::DestroyWqObj {
            wq_type,
            wq_obj_handle: handle,
        };
        let (next, result) = bnic(channel, &mut nic, again);
        assert_eq!(
            result.status,
            ResponseStatus::Bnic(BnicStatus::InvalidWqHandle)
        );
        channel = next;
    }
}

#[test]
fn queues_that_cannot_be_allocated_are_refused() {
    let mut nic = nic(1);
    for (wq, cq) in [(None, Some(1)), (Some(1), None)] {
        let channel = HwcChannel::new(control());
        let (channel, wq_gdma_region) = create_region(channel, 1);
        let (channel, cq_gdma_region) = create_region(channel, 1);
        let create = BnicRequest::CreateWqObj {
            wq_type: QueueType::Sq,
            vport: 0,
            wq_gdma_region,
            wq_size: 4096,
            cq_gdma_region,
            cq_size: 4096,
            cq_parent_qid: 0,
        };
        let channel = begin_bnic(channel).serve_bnic(&mut nic, create);
        let (_, status, _) = finish(channel.queues_allocated(&mut nic, wq, cq));
        assert_eq!(status, ResponseStatus::Bnic(BnicStatus::NotSetByHandler));
        assert!(nic.vports[0].tx.is_empty());
    }
}

#[test]
fn fence_is_posted_inline_without_a_task() {
    let mut nic = nic(1);
    let channel = HwcChannel::new(control());
    let (channel, rx) = create_wq(channel, &mut nic, QueueType::Rq, 20, 21);
    let fence = || BnicRequest::FenceRq { wq_obj_handle: rx };
    let channel = begin_bnic(channel).serve_bnic(&mut nic, fence());
    assert!(matches!(
        channel.phase,
        Phase::Fence {
            cq_id: 21,
            wq_id: 20,
            route: None,
            ..
        }
    ));
    let channel = channel.fence_routed(false);
    match &channel.phase {
        Phase::PostFence { post, .. } => {
            assert_eq!((post.cq_id, post.wq_id, post.is_send), (21, 20, false));
            assert!(
                matches!(&post.cqe, Cqe::Rx(rx) if rx.cqe_type == CqeType::RxObjectFence
                    && rx.packets.is_empty())
            );
        }
        _ => panic!("no fence"),
    }
    let (channel, status, size) = finish(channel.finished());
    assert_eq!((status, size), (ResponseStatus::Success, 4096));
    // With the data path running, the fence goes to its task.
    let (channel, _) = create_wq(channel, &mut nic, QueueType::Sq, 22, 23);
    let (channel, status, _) = config_rx(channel, &mut nic, steer());
    assert_eq!(status, ResponseStatus::Success);
    let channel = begin_bnic(channel).serve_bnic(&mut nic, fence());
    assert!(matches!(
        channel.phase,
        Phase::Fence {
            route: Some((0, 0)),
            ..
        }
    ));
    let (_, status, _) = finish(channel.fence_routed(true));
    assert_eq!(status, ResponseStatus::Success);
}

#[test]
fn receive_follows_the_link() {
    let mut nic = nic(1);
    let channel = HwcChannel::new(control());
    // No queues yet.
    let (channel, status, links) = config_rx(channel, &mut nic, steer());
    assert_eq!(status, ResponseStatus::Bnic(BnicStatus::NotSetByHandler));
    assert!(links.is_empty());
    let (channel, tx) = create_wq(channel, &mut nic, QueueType::Sq, 1, 2);
    let (channel, _) = create_wq(channel, &mut nic, QueueType::Rq, 3, 4);
    let (channel, status, links) = config_rx(channel, &mut nic, steer());
    assert_eq!((status, links), (ResponseStatus::Success, vec![true]));
    assert_eq!(nic.vports[0].tasks, 1);
    // A running vport keeps its queues.
    let destroy = BnicRequest::DestroyWqObj {
        wq_type: QueueType::Sq,
        wq_obj_handle: tx,
    };
    let (channel, result) = bnic(channel, &mut nic, destroy);
    assert_eq!(
        result.status,
        ResponseStatus::Bnic(BnicStatus::NotSetByHandler)
    );
    // Enabling it again changes nothing.
    let (channel, status, links) = config_rx(channel, &mut nic, steer());
    assert_eq!((status, links), (ResponseStatus::Success, vec![]));
    let off = RxSteerRequest {
        rx_enable: Tristate::False,
        ..steer()
    };
    let (_, status, links) = config_rx(channel, &mut nic, off);
    assert_eq!((status, links), (ResponseStatus::Success, vec![false]));
    assert_eq!(nic.vports[0].tasks, 0);
    assert!(!nic.vports[0].rx[0].fence_live);
}

/// A vport with some pairs of queues.
fn with_pairs(nic: &mut BasicNic, pairs: u32) -> (HwcChannel, Vec<u64>) {
    let mut channel = HwcChannel::new(control());
    let mut handles = Vec::new();
    for i in 0..pairs {
        let (next, _) = create_wq(channel, nic, QueueType::Sq, 100 + i, 200 + i);
        let (next, rx) = create_wq(next, nic, QueueType::Rq, 300 + i, 400 + i);
        handles.push(rx);
        channel = next;
    }
    (channel, handles)
}

#[test]
fn send_queues_are_funneled_round_robin() {
    let mut nic = nic(2);
    let (channel, _) = with_pairs(&mut nic, 5);
    let channel = begin_bnic(channel).serve_bnic(&mut nic, BnicRequest::ConfigVportRx(steer()));
    let channel = channel.endpoint_stopped();
    match &channel.phase {
        Phase::StartBackend { plan, .. } => assert_eq!(plan.backend_queues, 2),
        _ => panic!("no backend queues"),
    }
    let channel = channel.backend_provided(&mut nic, Some(2));
    match &channel.phase {
        Phase::RunTasks { tasks, .. } => {
            let sqs = |j: usize| -> Vec<u32> { tasks[j].sqs.iter().map(|sq| sq.sq_id).collect() };
            assert_eq!(sqs(0), vec![100, 102, 104]);
            assert_eq!(sqs(1), vec![101, 103]);
            assert_eq!(tasks[1].sqs[1].sq_cq_id, 203);
            assert_eq!((tasks[1].rq_id, tasks[1].rq_cq_id), (301, 401));
        }
        _ => panic!("no tasks"),
    }
    let live: Vec<bool> = nic.vports[0].rx.iter().map(|rx| rx.fence_live).collect();
    assert_eq!(live, vec![true, true, false, false, false]);
}

#[test]
fn backend_failures_are_refused() {
    for provided in [None, Some(2)] {
        let mut nic = nic(1);
        let (channel, _) = with_pairs(&mut nic, 2);
        let channel = begin_bnic(channel).serve_bnic(&mut nic, BnicRequest::ConfigVportRx(steer()));
        let channel = channel.endpoint_stopped().backend_provided(&mut nic, provided);
        let (_, status, _) = finish(channel);
        assert_eq!(status, ResponseStatus::Bnic(BnicStatus::NotSetByHandler));
        assert_eq!(nic.vports[0].tasks, 0);
    }
}

/// A request with an indirection table behind eight bytes of padding.
fn table_request(handles: &[u64]) -> RxSteerRequest {
    let mut tail = vec![0; 8];
    for handle in handles {
        tail.extend_from_slice(&handle.to_le_bytes());
    }
    RxSteerRequest {
        num_indir_entries: handles.len() as u16,
        indir_tab_offset: 120,
        update_indir_tab: 1,
        rss_enable: Tristate::True,
        update_hashkey: 1,
        hashkey: [7; 40],
        tail,
        ..steer()
    }
}

#[test]
fn indirection_table_is_resolved() {
    let mut nic = nic(4);
    let (channel, rx) = with_pairs(&mut nic, 3);
    let table = table_request(&[rx[2], rx[0], rx[0], rx[1]]);
    let channel = begin_bnic(channel).serve_bnic(&mut nic, BnicRequest::ConfigVportRx(table));
    let channel = channel.endpoint_stopped();
    match &channel.phase {
        Phase::StartBackend { plan, .. } => {
            let rss = plan.rss.as_ref().unwrap();
            assert_eq!(rss.table, vec![2, 0, 0, 1]);
            assert_eq!(rss.key, [7; 40]);
        }
        _ => panic!("no table"),
    }
    // The tasks hash under the key.
    let channel = channel.backend_provided(&mut nic, Some(3));
    match &channel.phase {
        Phase::RunTasks { tasks, .. } => assert_eq!(tasks[0].rss_key, Some([7; 40])),
        _ => panic!("no tasks"),
    }
    assert_eq!(nic.vports[0].rss_key, Some([7; 40]));
}

#[test]
fn malformed_tables_say_why() {
    let mut nic = nic(1);
    let (_, rx) = with_pairs(&mut nic, 1);
    let control = control();
    let mut plan = |req: RxSteerRequest| {
        let req = BnicRequest::ConfigVportRx(req);
        match nic.handle_req(&control.state, 1, req).ok() {
            Some(BnicStep::Steer(steering)) => match steering.start {
                StartPlan::Failed(err) => Some(err),
                _ => None,
            },
            _ => panic!("not a receive configuration"),
        }
    };
    let table = || table_request(&[rx[0], rx[0]]);
    assert_eq!(plan(table()), None);
    let early = RxSteerRequest { indir_tab_offset: 111, ..table() };
    assert_eq!(plan(early), Some(BnicFailure::TableOverlapsRequest));
    let late = RxSteerRequest { indir_tab_offset: 200, ..table() };
    assert_eq!(plan(late), Some(BnicFailure::TableBeyondRequest));
    let long = RxSteerRequest { num_indir_entries: 3, ..table() };
    assert_eq!(plan(long), Some(BnicFailure::TableTruncated));
    let shifted = RxSteerRequest { indir_tab_offset: 112, ..table() };
    assert_eq!(plan(shifted), Some(BnicFailure::UnknownRxQueue));
    // Nothing is resolved that is not to be updated.
    let unused = RxSteerRequest { update_indir_tab: 0, ..table_request(&[5]) };
    assert_eq!(plan(unused), None);
}

#[test]
fn live_steering_cycles_the_datapath_without_the_link() {
    let mut nic = nic(4);
    let (channel, rx) = with_pairs(&mut nic, 2);
    let (channel, status, links) = config_rx(channel, &mut nic, table_request(&[rx[0]]));
    assert_eq!((status, links), (ResponseStatus::Success, vec![true]));
    let again = table_request(&[rx[1], rx[0]]);
    let channel = begin_bnic(channel).serve_bnic(&mut nic, BnicRequest::ConfigVportRx(again));
    match &channel.phase {
        Phase::StopEndpoint { steering, .. } => {
            assert!(steering.stop_endpoint && steering.link.is_none());
        }
        _ => panic!("the data path is not cycled"),
    }
    let channel = channel.endpoint_stopped().backend_provided(&mut nic, Some(2));
    let (channel, status, _) = finish(channel.tasks_started());
    assert_eq!(status, ResponseStatus::Success);
    // A table that cannot be resolved leaves the data path stopped.
    let (_, status, _) = config_rx(channel, &mut nic, table_request(&[999]));
    assert_eq!(status, ResponseStatus::Bnic(BnicStatus::NotSetByHandler));
    assert_eq!(nic.vports[0].tasks, 0);
}

#[test]
fn coalescing_is_negotiated_by_version() {
    let mut nic = nic(1);
    let (channel, _) = with_pairs(&mut nic, 1);
    let control = channel.control;
    let mut apply = |version: u16, tail: Vec<u8>, rx_enable: Tristate| {
        let req = RxSteerRequest { tail, rx_enable, ..steer() };
        let step = nic.handle_req(&control.state, version, BnicRequest::ConfigVportRx(req));
        let timeout = match step {
            Ok(BnicStep::Steer(steering)) => match steering.body {
                BnicBody::RxSteer { cqe_coalescing_timeout_ns } => Some(cqe_coalescing_timeout_ns),
                _ => None,
            },
            _ => panic!("refused"),
        };
        (timeout, nic.vports[0].cqe_coalescing)
    };
    // The first version has neither the byte nor a response body.
    assert_eq!(apply(1, vec![1], Tristate::Other), (None, false));
    assert_eq!(apply(2, vec![1], Tristate::Other), (Some(2048), true));
    // The byte means nothing while receive is turned off.
    assert_eq!(apply(2, vec![], Tristate::False), (Some(2048), true));
    assert_eq!(apply(3, vec![0], Tristate::True), (Some(2048), false));
    let req = RxSteerRequest { tail: vec![], ..steer() };
    assert_eq!(
        nic.handle_req(&control.state, 2, BnicRequest::ConfigVportRx(req)).err(),
        Some(BnicError::Plain(BnicFailure::CoalescingByte))
    );
}

#[test]
fn coalescing_toggle_leaves_the_datapath_alone() {
    let mut nic = nic(1);
    let (channel, rx) = with_pairs(&mut nic, 1);
    let (channel, _, _) = config_rx(channel, &mut nic, table_request(&[rx[0]]));
    let toggle = RxSteerRequest { tail: vec![1], ..steer() };
    let step = nic.handle_req(&channel.control.state, 2, BnicRequest::ConfigVportRx(toggle));
    match step {
        Ok(BnicStep::Steer(steering)) => {
            assert!(!steering.stop_endpoint && steering.link.is_none());
            assert!(matches!(steering.start, StartPlan::NotNeeded));
        }
        _ => panic!("refused"),
    }
    assert!(nic.vports[0].cqe_coalescing);
    assert_eq!(nic.vports[0].tasks, 1);
    assert_eq!(nic.vports[0].rss_key, Some([7; 40]));
}

#[test]
fn shutdown_forgets_the_vports() {
    let mut nic = nic(2);
    let (channel, rx) = with_pairs(&mut nic, 2);
    let (_, _, _) = config_rx(channel, &mut nic, table_request(&[rx[0]]));
    nic.vports[0].cqe_coalescing = true;
    nic.vports[0].serial_no = 5;
    assert_eq!(nic.shutdown(), vec![true]);
    assert_eq!(nic.shutdown(), vec![false]);
    let vport = &nic.vports[0];
    assert_eq!((vport.tasks, vport.serial_no), (0, 0));
    assert!(vport.tx.is_empty() && vport.rx.is_empty());
    assert!(!vport.cqe_coalescing && vport.rss_key.is_none());
    assert_eq!(vport.mac_address, [1, 2, 3, 4, 5, 6]);
    // Handles are not given out again.
    let (_, handles) = with_pairs(&mut nic, 1);
    assert!(handles[0] > rx[1]);
}

#[test]
fn polled_shutdown_keeps_its_progress() {
    let mut nic = nic(2);
    let (channel, _) = with_pairs(&mut nic, 2);
    let (_, _, _) = config_rx(channel, &mut nic, steer());
    assert_eq!(nic.vports[0].tasks, 2);
    assert_eq!(nic.poll_shutdown(&vec![0]), 0);
    assert_eq!(nic.vports[0].tasks, 2);
    assert_eq!(nic.poll_shutdown(&vec![1]), 0);
    assert_eq!(nic.vports[0].tasks, 1);
    assert_eq!(nic.vports[0].rx.len(), 2);
    assert_eq!(nic.poll_shutdown(&vec![1]), 1);
    assert_eq!(nic.vports[0].tasks, 0);
    assert!(nic.vports[0].tx.is_empty() && nic.vports[0].rx.is_empty());
    // A client that is down stays so.
    assert_eq!(nic.poll_shutdown(&vec![0]), 1);
}

#[test]
fn vports_are_torn_down_in_order() {
    let vport = VportConfig {
        mac_address: [0; 6],
        max_queues: 1,
        is_ordered: true,
    };
    let mut nic = BasicNic::new(vec![vport, vport, vport], BnicConfig::default());
    nic.vports[1].tasks = 2;
    for vport in &mut nic.vports {
        vport.serial_no = 9;
    }
    assert_eq!(nic.poll_shutdown(&vec![0, 1, 0]), 1);
    let state = |nic: &BasicNic| -> Vec<(usize, u32)> {
        nic.vports.iter().map(|v| (v.tasks, v.serial_no)).collect()
    };
    assert_eq!(state(&nic), vec![(0, 0), (1, 9), (0, 9)]);
    assert_eq!(nic.poll_shutdown(&vec![0, 1, 0]), 3);
    assert_eq!(state(&nic), vec![(0, 0), (0, 0), (0, 0)]);
}

#[test]
fn handles_are_not_reused() {
    let mut nic = nic(1);
    let mut channel = HwcChannel::new(control());
    let mut seen = Vec::new();
    for round in 0..3 {
        for (wq_type, id) in [(QueueType::Rq, 10), (QueueType::Sq, 20)] {
            let (next, handle) = create_wq(channel, &mut nic, wq_type, id + round, id + 5);
            assert!(handle != 0 && !seen.contains(&handle));
            seen.push(handle);
            let destroy = BnicRequest::DestroyWqObj {
                wq_type,
                wq_obj_handle: handle,
            };
            let next = begin_bnic(next).serve_bnic(&mut nic, destroy);
            assert!(matches!(
                next.phase,
                Phase::FreeQueues { wq_id, .. } if wq_id == id + round
            ));
            channel = finish(next.finished()).0;
        }
    }
}

#[test]
fn outcomes_have_their_numbers() {
    assert_eq!(ResponseStatus::Success.code(), Some(0));
    assert_eq!(ResponseStatus::Failed.code(), Some(1));
    let code = |status: BnicStatus| ResponseStatus::Bnic(status).code();
    assert_eq!(code(BnicStatus::InvalidWqHandle), Some(29));
    assert_eq!(code(BnicStatus::NotSetByHandler), Some(0x1f));
    assert_eq!(code(BnicStatus::UnsupportedQueueType), Some(36));
    assert_eq!(code(BnicStatus::CommandUnsupported), Some(0xffff_ffff));
    assert_eq!(code(BnicStatus::InvalidWqType), None);
}
