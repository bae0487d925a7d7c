//! What a guest can rely on when it sends requests over the hardware channel, in terms of the
//! requests and the responses.

use crate::bnic::BnicStatus;
use crate::dma::{BuilderView, DmaError, RegionView};
use crate::hwc::{action_result, id_of, init_events, setup_step, slot_of, target_of};
use crate::hwc::{ChannelFailure, ChannelQueues, ControlView, DeviceId, DeviceType, EventView};
use crate::hwc::{HwcError, HwcRequest, HwcResponse, HwcTxOob, InitParameter, PostView, QueueType};
use crate::hwc::{RegionSlot, RequestHeader, ResponseStatus, SetupView, StepOutcome, StepView, Target};
use vstd::prelude::*;

verus! {

/// Whether pages, an offset into the first of them and a length describe a region: the pages lie
/// on page boundaries, the region is not empty, begins in the first page, and ends within the last.
pub open spec fn describes_a_region(pages: Seq<u64>, offset: u32, length: u64) -> bool {
    &&& forall|i: int| 0 <= i < pages.len() ==> #[trigger] pages[i] % 4096 == 0
    &&& length > 0
    &&& offset < 4096
    &&& offset + length <= 4096 * pages.len()
}

/// Whether a region is the one that pages, an offset and a length describe: its page numbers are
/// those of the pages, in order.
pub open spec fn is_region_of(
    region: RegionView,
    pages: Seq<u64>,
    offset: u32,
    length: u64,
) -> bool {
    &&& region.gpns.len() == pages.len()
    &&& forall|i: int| 0 <= i < pages.len() ==> #[trigger] region.gpns[i] * 4096 == pages[i]
    &&& region.start == offset
    &&& region.len == length
}

/// A region is made exactly where pages, offset and length describe one, and it is that one; where
/// they do not, the refusal tells the first thing that is wrong.
pub proof fn region_is_the_one_described(pages: Seq<u64>, offset: u32, length: u64)
    ensures
        ({
            let verdict = crate::dma::region_of(pages, offset, length);
            let aligned = forall|i: int| 0 <= i < pages.len() ==> #[trigger] pages[i] % 4096 == 0;
            &&& verdict is Ok <==> describes_a_region(pages, offset, length)
            &&& verdict matches Ok(region) ==> is_region_of(region, pages, offset, length)
            &&& !aligned ==> verdict == Err::<RegionView, DmaError>(DmaError::UnalignedPage)
            &&& aligned && length == 0 ==> verdict == Err::<RegionView, DmaError>(
                DmaError::EmptyRegion,
            )
            &&& aligned && length > 0 && offset >= 4096 ==> verdict == Err::<RegionView, DmaError>(
                DmaError::StartTooLarge,
            )
            &&& aligned && length > 0 && offset < 4096 && offset + length > 4096 * pages.len()
                ==> verdict == Err::<RegionView, DmaError>(DmaError::NotEnoughPages)
        }),
{
    let verdict = crate::dma::region_of(pages, offset, length);
    if verdict is Ok {
        assert(describes_a_region(pages, offset, length));
        assert forall|i: int| 0 <= i < pages.len() implies #[trigger] verdict->Ok_0.gpns[i] * 4096
            == pages[i] by {
            assert(pages[i] % 4096 == 0);
        }
    }
    if describes_a_region(pages, offset, length) {
        assert(crate::dma::all_page_aligned(pages));
    }
}

/// A page list is taken in chunks: the first may be empty or whole but no longer than declared, a
/// further one has at least a page and no more than are missing, and the list is what arrived, in
/// order. A region comes of it exactly once every page is there.
pub proof fn page_lists_are_taken_in_chunks(
    first: Seq<u64>,
    offset: u32,
    length: u64,
    declared: u32,
    builder: BuilderView,
    pages: Seq<u64>,
)
    ensures
        ({
            let started = BuilderView::start(first, offset, length, declared);
            &&& started is Ok <==> 0 < declared && first.len() <= declared
            &&& declared == 0 ==> started == Err::<BuilderView, DmaError>(DmaError::NoPages)
            &&& 0 < declared < first.len() ==> started == Err::<BuilderView, DmaError>(
                DmaError::InitialListTooLong,
            )
            &&& started matches Ok(list) ==> list.page_addrs == first && list.page_count == declared
                && list.offset_in_page == offset && list.length == length
        }),
        ({
            let longer = builder.append(pages);
            let fits = builder.page_addrs.len() + pages.len() <= builder.page_count;
            &&& longer is Ok <==> pages.len() > 0 && fits
            &&& pages.len() == 0 ==> longer == Err::<BuilderView, DmaError>(DmaError::EmptyPageList)
            &&& pages.len() > 0 && !fits ==> longer == Err::<BuilderView, DmaError>(
                DmaError::TooManyPages,
            )
            &&& longer matches Ok(list) ==> list.page_addrs == builder.page_addrs + pages
                && list.page_count == builder.page_count && list.offset_in_page
                == builder.offset_in_page && list.length == builder.length
        }),
        builder.page_addrs.len() != builder.page_count ==> builder.finish() == Err::<
            RegionView,
            DmaError,
        >(DmaError::Incomplete),
        builder.page_addrs.len() == builder.page_count ==> (builder.finish() is Ok
            <==> describes_a_region(builder.page_addrs, builder.offset_in_page, builder.length)),
        builder.finish() matches Ok(region) ==> is_region_of(
            region,
            builder.page_addrs,
            builder.offset_in_page,
            builder.length,
        ),
        builder.complete() <==> builder.page_addrs.len() == builder.page_count,
{
    region_is_the_one_described(builder.page_addrs, builder.offset_in_page, builder.length);
}

/// Creating a region keeps it under the handle of the response, ready where all of its pages came
/// and described one, and waiting where some are missing. A list that does not describe a region,
/// or does not fit its own count, is refused and leaves everything as it was.
pub proof fn created_region_is_kept_under_its_handle(
    control: ControlView,
    dev_id: DeviceId,
    create: HwcRequest,
)
    requires
        create is CreateDmaRegion,
        control.state.region_keys().has_next(),
    ensures
        ({
            let (after, ret) = control.handle(dev_id, create);
            let pages = create->CreateDmaRegion_pages@;
            let offset = create->CreateDmaRegion_offset_in_page;
            let length = create->CreateDmaRegion_length;
            let count = create->CreateDmaRegion_page_count;
            let fits = 0 < count && pages.len() <= count;
            let whole = pages.len() == count;
            &&& ret is Ok <==> fits && (whole ==> describes_a_region(pages, offset, length))
            &&& ret is Err ==> after == control && ret->Err_0 is Region
            &&& count == 0 ==> ret == Err::<StepView, HwcError>(HwcError::Region(DmaError::NoPages))
            &&& 0 < count < pages.len() ==> ret == Err::<StepView, HwcError>(
                HwcError::Region(DmaError::InitialListTooLong),
            )
            &&& ret is Ok ==> (ret matches Ok(
                StepView::Reply(HwcResponse::DmaRegion { gdma_region }),
            ) && gdma_region != 0 && after.state.regions.contains_key(slot_of(gdma_region)) && {
                let slot = after.state.regions[slot_of(gdma_region)];
                &&& whole ==> (slot matches RegionSlot::Ready(region) && is_region_of(
                    region,
                    pages,
                    offset,
                    length,
                ))
                &&& !whole ==> (slot matches RegionSlot::Building(list) && list.page_addrs == pages
                    && list.page_count == count && list.offset_in_page == offset && list.length
                    == length)
            })
            &&& after.state.pds == control.state.pds
            &&& after.state.mrs == control.state.mrs
            &&& after.bnic_enabled == control.bnic_enabled
        }),
{
    let pages = create->CreateDmaRegion_pages@;
    page_lists_are_taken_in_chunks(
        pages,
        create->CreateDmaRegion_offset_in_page,
        create->CreateDmaRegion_length,
        create->CreateDmaRegion_page_count,
        BuilderView {
            page_addrs: pages,
            offset_in_page: create->CreateDmaRegion_offset_in_page,
            length: create->CreateDmaRegion_length,
            page_count: create->CreateDmaRegion_page_count as nat,
        },
        pages,
    );
    crate::hwc::handle_names_its_slot(control.state.region_keys().next());
}

/// Adding pages is refused where the handle names no region or a ready one, and where the chunk is
/// empty or too long, and then changes nothing; a chunk that fits is appended, and the region is
/// ready once it is whole and describes one. No other region changes.
pub proof fn added_pages_complete_their_region(
    control: ControlView,
    dev_id: DeviceId,
    gdma_region: u64,
    pages: Vec<u64>,
    other: usize,
)
    ensures
        ({
            let (after, ret) = control.handle(
                dev_id,
                HwcRequest::DmaRegionAddPages { gdma_region, pages },
            );
            let key = slot_of(gdma_region);
            let known = control.state.regions.contains_key(key);
            &&& !known ==> after == control && ret == Err::<StepView, HwcError>(
                HwcError::RegionNotFound,
            )
            &&& known && control.state.regions[key] is Ready ==> after == control && ret == Err::<
                StepView,
                HwcError,
            >(HwcError::RegionNotAwaitingPages)
            &&& known ==> (control.state.regions[key] matches RegionSlot::Building(list) ==> {
                let fits = pages@.len() > 0 && list.page_addrs.len() + pages@.len()
                    <= list.page_count;
                let all = list.page_addrs + pages@;
                let whole = all.len() == list.page_count;
                let good = describes_a_region(all, list.offset_in_page, list.length);
                &&& !fits ==> after == control && ret is Err
                &&& fits ==> (ret is Ok <==> whole ==> good)
                &&& ret matches Ok(step) ==> step is Done
                &&& fits && whole && good ==> (after.state.regions[key] matches RegionSlot::Ready(
                    region,
                ) && is_region_of(region, all, list.offset_in_page, list.length))
                &&& fits && !(whole && good) ==> (
                after.state.regions[key] matches RegionSlot::Building(longer) && longer.page_addrs
                    == all && longer.page_count == list.page_count)
            })
            &&& other != key && control.state.regions.contains_key(other)
                ==> after.state.regions.contains_key(other) && after.state.regions[other]
                == control.state.regions[other]
        }),
{
    let key = slot_of(gdma_region);
    if control.state.regions.contains_key(key) {
        if let RegionSlot::Building(list) = control.state.regions[key] {
            page_lists_are_taken_in_chunks(
                Seq::empty(),
                0,
                0,
                1,
                list,
                pages@,
            );
            if list.append(pages@) is Ok {
                page_lists_are_taken_in_chunks(
                    Seq::empty(),
                    0,
                    0,
                    1,
                    list.append(pages@)->Ok_0,
                    pages@,
                );
            }
        }
    }
}

/// An event queue is made over the very region that its request names, with the interrupt that it
/// names; any other kind of queue is refused, and so is a region that is not there, not whole or
/// not of the size of the queue.
pub proof fn event_queue_is_made_over_its_region(
    control: ControlView,
    dev_id: DeviceId,
    queue_type: QueueType,
    gdma_region: u64,
    queue_size: u32,
    msix: u32,
)
    ensures
        ({
            let (after, ret) = control.handle(
                dev_id,
                HwcRequest::CreateQueue {
                    queue_type,
                    gdma_region,
                    queue_size,
                    eq_pci_msix_index: msix,
                },
            );
            let known = control.state.regions.contains_key(slot_of(gdma_region));
            let slot = control.state.regions[slot_of(gdma_region)];
            &&& after == control
            &&& queue_type != QueueType::Eq ==> ret == Err::<StepView, HwcError>(
                HwcError::UnsupportedQueueType,
            )
            &&& queue_type == QueueType::Eq && !known ==> ret == Err::<StepView, HwcError>(
                HwcError::RegionNotFound,
            )
            &&& queue_type == QueueType::Eq && known && slot is Building ==> ret == Err::<
                StepView,
                HwcError,
            >(HwcError::RegionIncomplete)
            &&& queue_type == QueueType::Eq && known ==> (slot matches RegionSlot::Ready(region)
                ==> {
                &&& region.len != queue_size ==> ret == Err::<StepView, HwcError>(
                    HwcError::RegionSizeMismatch,
                )
                &&& region.len == queue_size ==> ret == Ok::<StepView, HwcError>(
                    StepView::AllocEq { gdma_region, region, msix },
                )
            })
        }),
{
}

/// What the requests do that touch no handle: each asks for what it names, and changes nothing.
pub proof fn requests_ask_for_what_they_name(
    control: ControlView,
    dev_id: DeviceId,
    queue_type: QueueType,
    queue: u32,
    msix: u32,
    data: Vec<u8>,
    version: u64,
    msg_type: u32,
)
    ensures
        control.handle(dev_id, HwcRequest::GenerateTestEqe { queue_index: queue }) == (
            control,
            Ok::<StepView, HwcError>(
                StepView::PostEq(PostView { eq_id: queue, event: EventView::Test }),
            ),
        ),
        control.handle(
            dev_id,
            HwcRequest::GenerateResetRequestEqe { queue_index: queue, data },
        ) == (
            control,
            Ok::<StepView, HwcError>(
                StepView::PostEq(
                    PostView {
                        eq_id: queue,
                        event: EventView::ResetRequest { data: Some(data@) },
                    },
                ),
            ),
        ),
        ({
            let (after, ret) = control.handle(
                dev_id,
                HwcRequest::DisableQueue { queue_type, queue_index: queue },
            );
            &&& after == control
            &&& queue_type == QueueType::Eq ==> ret == Ok::<StepView, HwcError>(
                StepView::FreeEq { queue_index: queue },
            )
            &&& queue_type != QueueType::Eq ==> ret == Err::<StepView, HwcError>(
                HwcError::UnsupportedQueueType,
            )
        }),
        control.handle(dev_id, HwcRequest::ChangeMsixForEq { queue_index: queue, msix }) == (
            control,
            Ok::<StepView, HwcError>(StepView::UpdateEqMsix { queue_index: queue, msix }),
        ),
        ({
            let (after, ret) = control.handle(
                dev_id,
                HwcRequest::VerifyVfDriverVersion { protocol_ver_min: version },
            );
            &&& after == control
            &&& ret matches Ok(
                StepView::Reply(HwcResponse::VerifyVersion { gdma_protocol_ver, pf_cap_flags }),
            ) && gdma_protocol_ver == version && pf_cap_flags == 0
        }),
        ({
            let (after, ret) = control.handle(dev_id, HwcRequest::QueryMaxResources);
            let limits = control.state.limits;
            &&& after == control
            &&& ret matches Ok(
                StepView::Reply(
                    HwcResponse::MaxResources {
                        status,
                        max_sq,
                        max_rq,
                        max_cq,
                        max_eq,
                        max_db,
                        max_mst,
                        max_cq_mod_ctx,
                        max_mod_cq,
                        max_msix,
                    },
                ),
            ) && {
                &&& max_sq == limits.max_sqs && max_rq == limits.max_rqs
                &&& max_cq == limits.max_cqs && max_eq == limits.max_eqs
                &&& status == 0 && max_db == 1 && max_mst == 1 && max_cq_mod_ctx == 0
                &&& max_mod_cq == 0 && max_msix == 64
            }
        }),
        ({
            let (after, ret) = control.handle(dev_id, HwcRequest::ListDevices);
            &&& after == control
            &&& ret matches Ok(
                StepView::Reply(HwcResponse::Devices { num_of_devs, first, second }),
            ) && num_of_devs == 2 && first.ty == DeviceType::Hwc && second.ty == DeviceType::Mana
                && second.instance == 0
        }),
        control.handle(dev_id, HwcRequest::Truncated) == (
            control,
            Err::<StepView, HwcError>(HwcError::Truncated),
        ),
        control.handle(dev_id, HwcRequest::Unsupported { msg_type }) == (
            control,
            Err::<StepView, HwcError>(HwcError::UnsupportedMessage(msg_type)),
        ),
{
}

/// Registering and deregistering the network client pair up: each is taken once, in turn, and only
/// where it is addressed to that client.
pub proof fn registration_pairs_up(control: ControlView, dev_id: DeviceId)
    ensures
        ({
            let (on, registered) = control.handle(dev_id, HwcRequest::RegisterDevice);
            let (off, deregistered) = control.handle(dev_id, HwcRequest::DeregisterDevice);
            let addressed = dev_id.ty == DeviceType::Mana && dev_id.instance == 0;
            &&& registered is Ok <==> addressed && !control.bnic_enabled
            &&& registered is Ok ==> on.bnic_enabled && on.state == control.state && (
            registered matches Ok(
                StepView::Reply(HwcResponse::Registered { pdid: 0, gpa_mkey: 0, db_id: 0 }),
            ))
            &&& registered is Err ==> on == control
            &&& deregistered is Ok <==> addressed && control.bnic_enabled
            &&& deregistered is Ok ==> !off.bnic_enabled && off.state == control.state
                && deregistered->Ok_0 is Done
            &&& deregistered is Err ==> off == control
            &&& !addressed ==> registered == Err::<StepView, HwcError>(HwcError::InvalidDevice)
                && deregistered == Err::<StepView, HwcError>(HwcError::InvalidDevice)
            &&& addressed && control.bnic_enabled ==> registered == Err::<StepView, HwcError>(
                HwcError::BnicAlreadyEnabled,
            )
            &&& addressed && !control.bnic_enabled ==> deregistered == Err::<StepView, HwcError>(
                HwcError::BnicNotEnabled,
            )
        }),
{
}

/// Destroying a region takes away the one that the handle names and no other, and is refused where
/// there is none.
pub proof fn destroyed_region_is_gone(
    control: ControlView,
    dev_id: DeviceId,
    gdma_region: u64,
    other: usize,
)
    ensures
        ({
            let (after, ret) = control.handle(
                dev_id,
                HwcRequest::DestroyDmaRegion { gdma_region },
            );
            let key = slot_of(gdma_region);
            &&& ret is Ok <==> control.state.regions.contains_key(key)
            &&& ret is Err ==> ret->Err_0 == HwcError::RegionNotFound
            &&& !after.state.regions.contains_key(key)
            &&& other != key ==> (after.state.regions.contains_key(other)
                <==> control.state.regions.contains_key(other)) && after.state.regions[other]
                == control.state.regions[other]
            &&& after.state.pds == control.state.pds
            &&& after.state.mrs == control.state.mrs
        }),
{
}

/// A protection domain gets a handle that is not in use, with an identifier like it; destroying
/// one ends exactly that one. A memory region's keys are like its handle, and alike.
pub proof fn handles_of_domains_and_regions(
    control: ControlView,
    dev_id: DeviceId,
    handle: u64,
    other: usize,
)
    requires
        control.state.pds.has_next(),
        control.state.mrs.has_next(),
    ensures
        control.handle(dev_id, HwcRequest::CreatePd).1 matches Ok(
            StepView::Reply(HwcResponse::Pd { pd_handle, pd_id }),
        ) && pd_handle == control.state.pds.next() + 1 && pd_id == id_of(control.state.pds.next()),
        control.handle(dev_id, HwcRequest::CreatePd).0.state.pds.live.contains(
            control.state.pds.next(),
        ),
        other != control.state.pds.next() ==> (control.handle(
            dev_id,
            HwcRequest::CreatePd,
        ).0.state.pds.live.contains(other) <==> control.state.pds.live.contains(other)),
        ({
            let (after, ret) = control.handle(dev_id, HwcRequest::DestroyPd { pd_handle: handle });
            &&& ret is Ok <==> control.state.pds.live.contains(slot_of(handle))
            &&& !after.state.pds.live.contains(slot_of(handle))
            &&& other != slot_of(handle) ==> (after.state.pds.live.contains(other)
                <==> control.state.pds.live.contains(other))
        }),
        ({
            let (after, ret) = control.handle(dev_id, HwcRequest::CreateMr { pd_handle: handle });
            &&& ret is Ok <==> control.state.pds.live.contains(slot_of(handle))
            &&& ret is Err ==> after == control && ret->Err_0 == HwcError::UnknownPd
            &&& ret is Ok ==> (ret matches Ok(
                StepView::Reply(HwcResponse::Mr { mr_handle, lkey, rkey }),
            ) && mr_handle == control.state.mrs.next() + 1 && lkey == rkey && lkey == id_of(
                control.state.mrs.next(),
            )) && after.state.mrs.live.contains(control.state.mrs.next())
            &&& after.state.pds == control.state.pds
        }),
        ({
            let (after, ret) = control.handle(dev_id, HwcRequest::DestroyMr { mr_handle: handle });
            &&& ret is Ok <==> control.state.mrs.live.contains(slot_of(handle))
            &&& !after.state.mrs.live.contains(slot_of(handle))
            &&& other != slot_of(handle) ==> (after.state.mrs.live.contains(other)
                <==> control.state.mrs.live.contains(other))
            &&& after.state.pds == control.state.pds
        }),
{
}

/// What follows the work of a step: what has a body is answered with it, a queue that was made
/// with its index; what could not be done is refused, and only that.
pub proof fn work_decides_on_the_response(step: StepView, outcome: StepOutcome)
    ensures
        ({
            let ret = action_result(step, outcome);
            &&& step is Done || step is PostEq ==> ret == Ok::<Option<HwcResponse>, HwcError>(None)
            &&& step matches StepView::Reply(response) ==> ret == Ok::<
                Option<HwcResponse>,
                HwcError,
            >(Some(response))
            &&& step is AllocEq ==> (ret is Ok <==> outcome is Allocated)
            &&& step is AllocEq ==> (outcome matches StepOutcome::Allocated { queue_index } ==> ret
                == Ok::<Option<HwcResponse>, HwcError>(Some(HwcResponse::Queue { queue_index })))
            &&& step is FreeEq || step is UpdateEqMsix ==> (ret is Err <==> outcome is Failed) && (
            ret is Ok ==> ret == Ok::<Option<HwcResponse>, HwcError>(None))
        }),
{
}

/// A work request is taken up exactly where it names the channel's own queues, has a header, and
/// request and response keep to a page, with room for a response header; the first of these that
/// fails stops the channel. What is left of the response buffer behind its header, as far as the
/// guest declared it, is the room for the body.
pub proof fn work_requests_are_checked(
    control: ControlView,
    oob: Option<HwcTxOob>,
    hdr: Option<RequestHeader>,
    req_len: usize,
    resp_len: usize,
    resp_hdr_len: usize,
)
    ensures
        ({
            let ret = control.accept(oob, hdr, req_len, resp_len, resp_hdr_len);
            let queues = oob is Some && oob->0.vscq_id == control.cq_id && oob->0.vsq_id
                == control.sq_id;
            let declared = hdr->0.resp.msg_size;
            &&& ret is Ok <==> queues && hdr is Some && req_len <= 4096 && declared <= 4096
                && resp_hdr_len <= resp_len && resp_hdr_len <= declared
            &&& ret matches Ok(accepted) ==> {
                &&& accepted.room + resp_hdr_len <= resp_len
                &&& accepted.room + resp_hdr_len <= declared
                &&& accepted.room + resp_hdr_len == resp_len || accepted.room + resp_hdr_len
                    == declared
                &&& accepted.target == target_of(hdr->0)
            }
            &&& oob is None ==> ret->Err_0 == ChannelFailure::TxOob
            &&& oob is Some && oob->0.vscq_id != control.cq_id ==> ret->Err_0
                == ChannelFailure::MismatchedCq
            &&& oob is Some && oob->0.vscq_id == control.cq_id && oob->0.vsq_id != control.sq_id
                ==> ret->Err_0 == ChannelFailure::MismatchedSq
            &&& queues && hdr is None ==> ret->Err_0 == ChannelFailure::Header
            &&& queues && hdr is Some && req_len > 4096 ==> ret->Err_0
                == ChannelFailure::RequestTooLong
            &&& queues && hdr is Some && req_len <= 4096 && declared > 4096 ==> ret->Err_0
                == ChannelFailure::ResponseTooLong
            &&& queues && hdr is Some && req_len <= 4096 && declared <= 4096 && ret is Err
                ==> ret->Err_0 == ChannelFailure::ResponseTooSmall
        }),
{
}

/// Whom a request goes to: the channel itself, unless the upper half of its type names a client;
/// then to the network client where it is addressed to that, registered or not.
pub proof fn requests_find_their_client(hdr: RequestHeader)
    ensures
        ({
            let client = hdr.req.msg_type / 0x1_0000 != 0;
            let addressed = hdr.dev_id.ty == DeviceType::Mana && hdr.dev_id.instance == 0;
            &&& target_of(hdr) == Target::Core <==> !client
            &&& target_of(hdr) == Target::Bnic <==> client && addressed
            &&& target_of(hdr) == Target::UnknownDevice <==> client && !addressed
        }),
{
}

/// A channel's queues are made in turn, each over the page that the guest gave for it: send queue,
/// receive queue, event queue with its interrupt, and a completion queue on that event queue.
pub proof fn channel_queues_are_made_in_turn(queues: ChannelQueues, ids: Seq<u32>)
    requires
        queues.aligned(),
    ensures
        ids.len() == 0 ==> (setup_step(queues, ids) matches Some(
            SetupView::AllocWq { is_send, region },
        ) && is_send && covers_page(region, queues.sq_gpa)),
        ids.len() == 1 ==> (setup_step(queues, ids) matches Some(
            SetupView::AllocWq { is_send, region },
        ) && !is_send && covers_page(region, queues.rq_gpa)),
        ids.len() == 2 ==> (setup_step(queues, ids) matches Some(
            SetupView::AllocEq { region, msix },
        ) && msix == queues.eq_msix && covers_page(region, queues.eq_gpa)),
        ids.len() == 3 ==> (setup_step(queues, ids) matches Some(
            SetupView::AllocCq { region, eq_id },
        ) && eq_id == ids[2] && covers_page(region, queues.cq_gpa)),
        ids.len() >= 4 ==> setup_step(queues, ids) is None,
{
}

/// Whether a region is exactly the page at an address.
pub open spec fn covers_page(region: RegionView, gpa: u64) -> bool {
    &&& region.gpns.len() == 1
    &&& region.gpns[0] * 4096 == gpa
    &&& region.start == 0
    &&& region.len == 4096
}

/// Whether one of the events tells a parameter.
pub open spec fn tells(events: Seq<EventView>, ty: InitParameter, value: u32) -> bool {
    exists|i: int|
        0 < i < events.len() - 1 && #[trigger] events[i] == (EventView::InitData { ty, value })
}

/// A new channel is announced by its event queue first, then by its parameters, and an end; the
/// guest learns its queues, that one request is in flight at a time, and that messages are a page
/// at most.
pub proof fn channel_is_announced(sq_id: u32, rq_id: u32, eq_id: u32, cq_id: u32, max_cqs: u32)
    ensures
        ({
            let events = init_events(sq_id, rq_id, eq_id, cq_id, max_cqs);
            &&& events.len() == 11
            &&& events[0] matches EventView::InitEqIdDb { eq_id: told, doorbell } && doorbell == 0
                && (eq_id <= u16::MAX ==> told == eq_id)
            &&& events.last() is InitDone
            &&& tells(events, InitParameter::CqId, cq_id)
            &&& tells(events, InitParameter::RqId, rq_id)
            &&& tells(events, InitParameter::SqId, sq_id)
            &&& tells(events, InitParameter::QueueDepth, 1)
            &&& tells(events, InitParameter::MaxRequest, 4096)
            &&& tells(events, InitParameter::MaxResponse, 4096)
            &&& tells(events, InitParameter::MaxNumCqs, max_cqs)
            &&& tells(events, InitParameter::PdId, 0)
            &&& tells(events, InitParameter::GpaMkey, 0)
        }),
{
    let events = init_events(sq_id, rq_id, eq_id, cq_id, max_cqs);
    assert(events[1] == (EventView::InitData { ty: InitParameter::CqId, value: cq_id }));
    assert(events[2] == (EventView::InitData { ty: InitParameter::RqId, value: rq_id }));
    assert(events[3] == (EventView::InitData { ty: InitParameter::SqId, value: sq_id }));
    assert(events[4] == (EventView::InitData { ty: InitParameter::QueueDepth, value: 1 }));
    assert(events[5] == (EventView::InitData { ty: InitParameter::MaxRequest, value: 4096 }));
    assert(events[6] == (EventView::InitData { ty: InitParameter::MaxResponse, value: 4096 }));
    assert(events[7] == (EventView::InitData { ty: InitParameter::MaxNumCqs, value: max_cqs }));
    assert(events[8] == (EventView::InitData { ty: InitParameter::PdId, value: 0 }));
    assert(events[9] == (EventView::InitData { ty: InitParameter::GpaMkey, value: 0 }));
}

/// The numbers of the outcomes that have one: zero stands for success and for nothing else, and no
/// two outcomes share one.
pub proof fn outcomes_have_numbers_of_their_own(a: ResponseStatus, b: ResponseStatus)
    ensures
        a.code() == Some(0u32) <==> a is Success,
        a.code() == Some(1u32) <==> a is Failed,
        a.code() == Some(0xffff_ffffu32) <==> a == ResponseStatus::Bnic(
            BnicStatus::CommandUnsupported,
        ),
        a.code() == Some(0x1fu32) <==> a == ResponseStatus::Bnic(BnicStatus::NotSetByHandler),
        a.code() == Some(29u32) <==> a == ResponseStatus::Bnic(BnicStatus::InvalidWqHandle),
        a.code() == Some(36u32) <==> a == ResponseStatus::Bnic(BnicStatus::UnsupportedQueueType),
        a.code() is Some && a.code() == b.code() ==> a == b,
{
}

} // verus!
