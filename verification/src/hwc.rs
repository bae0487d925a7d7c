//! The hardware channel: the control path over which the guest driver creates queues and
//! registers memory.
//!
//! Requests and responses are plain values here: the caller decodes the bytes of a message and
//! encodes the reply. Work that only the caller can do (allocating a queue, writing guest memory)
//! is asked for by an [`HwcStep`], and its outcome is handed back.

use crate::bnic::{BasicNic, BnicStatus};
use crate::completion::{CqPost, CqPostView, Cqe, CqeView};
use crate::dma::{BuilderView, DmaError, DmaRegion, DmaRegionBuilder, RegionView};
use crate::dma::{region_of, PAGE_SIZE64};
use crate::table::{Keys, Table};
use vstd::prelude::*;

verus! {

/// The kinds of queue that a guest can name.
#[derive(Clone, Copy, Debug, PartialEq, Eq, Structural)]
pub enum QueueType {
    Sq,
    Rq,
    Cq,
    Eq,
    Other(u32),
}

/// The kinds of client that share the device.
#[derive(Clone, Copy, Debug, PartialEq, Eq, Structural)]
pub enum DeviceType {
    Hwc,
    Mana,
    Other(u16),
}

/// The clients that are reached through the channel.
pub struct Devices {
    pub bnic: BasicNic,
}

/// The address of a client of the device.
#[derive(Clone, Copy, Debug, PartialEq, Eq, Structural)]
pub struct DeviceId {
    pub ty: DeviceType,
    pub instance: u16,
}

/// The client that is the channel itself.
pub open spec fn hwc_dev_id_spec() -> DeviceId {
    DeviceId { ty: DeviceType::Hwc, instance: 0 }
}

#[verifier::when_used_as_spec(hwc_dev_id_spec)]
pub fn hwc_dev_id() -> (ret: DeviceId)
    ensures
        ret == hwc_dev_id_spec(),
{
    DeviceId { ty: DeviceType::Hwc, instance: 0 }
}

/// The basic network client. Its instance must be 0: some drivers round-trip whatever instance is
/// reported, others read the field as a secondary index and silently discard a client whose value
/// is non-zero.
pub open spec fn bnic_dev_id_spec() -> DeviceId {
    DeviceId { ty: DeviceType::Mana, instance: 0 }
}

#[verifier::when_used_as_spec(bnic_dev_id_spec)]
pub fn bnic_dev_id() -> (ret: DeviceId)
    ensures
        ret == bnic_dev_id_spec(),
{
    DeviceId { ty: DeviceType::Mana, instance: 0 }
}

/// How many queues of each kind the device has.
#[derive(Clone, Copy, Debug, PartialEq, Eq, Structural)]
pub struct QueueLimits {
    pub max_sqs: u32,
    pub max_rqs: u32,
    pub max_cqs: u32,
    pub max_eqs: u32,
}

/// Why a request was refused.
#[derive(Clone, Copy, Debug, PartialEq, Eq, Structural)]
pub enum HwcError {
    /// The message ends before its fixed fields or its page list do.
    Truncated,
    /// The request is not addressed to the network client.
    InvalidDevice,
    BnicAlreadyEnabled,
    BnicNotEnabled,
    /// The page list does not describe a region.
    Region(DmaError),
    RegionNotFound,
    /// Pages were sent for a region that is already whole.
    RegionNotAwaitingPages,
    /// The region is still missing pages.
    RegionIncomplete,
    RegionSizeMismatch,
    UnsupportedQueueType,
    /// No queue could be allocated.
    QueueAlloc,
    /// The queue to change does not exist.
    UnknownQueue,
    UnknownPd,
    UnknownMr,
    UnsupportedMessage(u32),
    /// The response body could not be written.
    ResponseWrite,
}

/// A core request, decoded.
pub enum HwcRequest {
    GenerateTestEqe { queue_index: u32 },
    GenerateResetRequestEqe { queue_index: u32, data: Vec<u8> },
    VerifyVfDriverVersion { protocol_ver_min: u64 },
    QueryMaxResources,
    ListDevices,
    RegisterDevice,
    DeregisterDevice,
    CreateDmaRegion { offset_in_page: u32, length: u64, page_count: u32, pages: Vec<u64> },
    DmaRegionAddPages { gdma_region: u64, pages: Vec<u64> },
    DestroyDmaRegion { gdma_region: u64 },
    CreateQueue { queue_type: QueueType, gdma_region: u64, queue_size: u32, eq_pci_msix_index: u32 },
    DisableQueue { queue_type: QueueType, queue_index: u32 },
    ChangeMsixForEq { queue_index: u32, msix: u32 },
    CreatePd,
    DestroyPd { pd_handle: u64 },
    CreateMr { pd_handle: u64 },
    DestroyMr { mr_handle: u64 },
    /// A known request whose body, or whose page list, is cut short.
    Truncated,
    Unsupported { msg_type: u32 },
}

/// The body of a response to a core request.
#[derive(Clone, Copy, Debug, PartialEq, Eq, Structural)]
pub enum HwcResponse {
    VerifyVersion { gdma_protocol_ver: u64, pf_cap_flags: u64 },
    MaxResources {
        status: u32,
        max_sq: u32,
        max_rq: u32,
        max_cq: u32,
        max_eq: u32,
        max_db: u32,
        max_mst: u32,
        max_cq_mod_ctx: u32,
        max_mod_cq: u32,
        max_msix: u32,
    },
    Devices { num_of_devs: u32, first: DeviceId, second: DeviceId },
    Registered { pdid: u32, gpa_mkey: u32, db_id: u32 },
    DmaRegion { gdma_region: u64 },
    Queue { queue_index: u32 },
    Pd { pd_handle: u64, pd_id: u32 },
    Mr { mr_handle: u64, lkey: u32, rkey: u32 },
}

/// The parameters that the device reports while the channel comes up.
#[derive(Clone, Copy, Debug, PartialEq, Eq, Structural)]
pub enum InitParameter {
    CqId,
    RqId,
    SqId,
    QueueDepth,
    MaxRequest,
    MaxResponse,
    MaxNumCqs,
    PdId,
    GpaMkey,
}

/// An event on an event queue.
pub enum EqEvent {
    InitEqIdDb { eq_id: u16, doorbell: u16 },
    InitData { ty: InitParameter, value: u32 },
    InitDone,
    Test,
    /// A request that the guest tear the function down and build it again. `None` asks for no
    /// revocation.
    ResetRequest { data: Option<Vec<u8>> },
    /// A change of a vport's link; `vport` holds the low 24 bits of its index.
    LinkStatus { vport: [u8; 3], connected: bool },
}

/// An event and the queue that it goes to.
pub struct EqPost {
    pub eq_id: u32,
    pub event: EqEvent,
}

/// What an event says.
pub enum EventView {
    InitEqIdDb { eq_id: u16, doorbell: u16 },
    InitData { ty: InitParameter, value: u32 },
    InitDone,
    Test,
    ResetRequest { data: Option<Seq<u8>> },
    LinkStatus { vport: Seq<u8>, connected: bool },
}

/// What an event says and where it goes.
pub struct PostView {
    pub eq_id: u32,
    pub event: EventView,
}

impl View for EqEvent {
    type V = EventView;

    open spec fn view(&self) -> EventView {
        match self {
            EqEvent::InitEqIdDb { eq_id, doorbell } => EventView::InitEqIdDb {
                eq_id: *eq_id,
                doorbell: *doorbell,
            },
            EqEvent::InitData { ty, value } => EventView::InitData { ty: *ty, value: *value },
            EqEvent::InitDone => EventView::InitDone,
            EqEvent::Test => EventView::Test,
            EqEvent::ResetRequest { data } => EventView::ResetRequest {
                data: match data {
                    Some(data) => Some(data@),
                    None => None,
                },
            },
            EqEvent::LinkStatus { vport, connected } => EventView::LinkStatus {
                vport: vport@,
                connected: *connected,
            },
        }
    }
}

impl View for EqPost {
    type V = PostView;

    open spec fn view(&self) -> PostView {
        PostView { eq_id: self.eq_id, event: self.event@ }
    }
}

/// What is left to do for a request.
pub enum HwcStep {
    /// Nothing; the response has no body.
    Done,
    /// Write the response body.
    Reply(HwcResponse),
    /// Post an event; the response has no body.
    PostEq(EqPost),
    /// Allocate an event queue on `region`, then write a response with its index, and release the
    /// region's handle once that is written.
    AllocEq { gdma_region: u64, region: DmaRegion, msix: u32 },
    FreeEq { queue_index: u32 },
    UpdateEqMsix { queue_index: u32, msix: u32 },
}

/// What a step asks for.
pub enum StepView {
    Done,
    Reply(HwcResponse),
    PostEq(PostView),
    AllocEq { gdma_region: u64, region: RegionView, msix: u32 },
    FreeEq { queue_index: u32 },
    UpdateEqMsix { queue_index: u32, msix: u32 },
}

impl View for HwcStep {
    type V = StepView;

    open spec fn view(&self) -> StepView {
        match self {
            HwcStep::Done => StepView::Done,
            HwcStep::Reply(response) => StepView::Reply(*response),
            HwcStep::PostEq(post) => StepView::PostEq(post@),
            HwcStep::AllocEq { gdma_region, region, msix } => StepView::AllocEq {
                gdma_region: *gdma_region,
                region: region@,
                msix: *msix,
            },
            HwcStep::FreeEq { queue_index } => StepView::FreeEq { queue_index: *queue_index },
            HwcStep::UpdateEqMsix { queue_index, msix } => StepView::UpdateEqMsix {
                queue_index: *queue_index,
                msix: *msix,
            },
        }
    }
}

/// What came of the work that a step asked for.
#[derive(Clone, Copy, Debug, PartialEq, Eq, Structural)]
pub enum StepOutcome {
    Allocated { queue_index: u32 },
    Done,
    Failed,
}

/// A DMA region slot. A region whose page list spans multiple messages stays `Building` until
/// every page has arrived, then becomes `Ready`; single-message regions are `Ready` immediately.
/// Only `Ready` regions can be bound to a queue.
pub enum DmaRegionState {
    Building(DmaRegionBuilder),
    Ready(DmaRegion),
}

/// What a region slot holds.
pub enum RegionSlot {
    Building(BuilderView),
    Ready(RegionView),
}

impl RegionSlot {
    pub open spec fn valid(self) -> bool {
        match self {
            RegionSlot::Building(builder) => builder.valid(),
            RegionSlot::Ready(region) => region.valid(),
        }
    }
}

impl View for DmaRegionState {
    type V = RegionSlot;

    open spec fn view(&self) -> RegionSlot {
        match self {
            DmaRegionState::Building(builder) => RegionSlot::Building(builder@),
            DmaRegionState::Ready(region) => RegionSlot::Ready(region@),
        }
    }
}

/// The slot that a handle names. Handles count from one, so that zero names nothing.
pub open spec fn slot_of(handle: u64) -> usize {
    if handle == 0 {
        u64::MAX as usize
    } else {
        (handle - 1) as usize
    }
}

fn slot(handle: u64) -> (ret: usize)
    ensures
        ret == slot_of(handle),
{
    handle.wrapping_sub(1) as usize
}

/// The memory and handles that a channel has registered.
pub struct HwState {
    /// How many queues the device has.
    pub limits: QueueLimits,
    /// The event queue created for the channel while it came up. Asynchronous device events that
    /// the driver's channel handler processes (for example vport link changes) are posted here.
    pub hwc_eq_id: u32,
    pub dma_regions: Table<DmaRegionState>,
    /// Live protection-domain handles. A protection domain is a handle namespace for memory
    /// regions; the data path addresses guest memory by address and never resolves a memory key,
    /// so a domain needs no backing state beyond a live handle.
    pub pds: Table<()>,
    /// Live memory-region handles, opaque for the same reason.
    pub mrs: Table<()>,
}

/// What a [`HwState`] holds.
pub struct HwView {
    pub limits: QueueLimits,
    pub hwc_eq_id: u32,
    pub regions: Map<usize, RegionSlot>,
    pub released_regions: Seq<usize>,
    pub pds: Keys,
    pub mrs: Keys,
}

impl HwView {
    pub open spec fn region_keys(self) -> Keys {
        Keys { live: self.regions.dom(), released: self.released_regions }
    }

    /// The region that a handle names, provided that it is whole and of the expected size.
    pub open spec fn region(self, gdma_region: u64, expected_size: u32) -> Result<
        RegionView,
        HwcError,
    > {
        let key = slot_of(gdma_region);
        if !self.regions.contains_key(key) {
            Err(HwcError::RegionNotFound)
        } else {
            match self.regions[key] {
                RegionSlot::Building(_) => Err(HwcError::RegionIncomplete),
                RegionSlot::Ready(region) => if region.len != expected_size {
                    Err(HwcError::RegionSizeMismatch)
                } else {
                    Ok(region)
                },
            }
        }
    }

    pub open spec fn insert_region(self, slot: RegionSlot) -> HwView {
        HwView {
            regions: self.regions.insert(self.region_keys().next(), slot),
            released_regions: self.region_keys().take().released,
            ..self
        }
    }

    pub open spec fn remove_region(self, gdma_region: u64) -> HwView {
        HwView {
            regions: self.regions.remove(slot_of(gdma_region)),
            released_regions: self.region_keys().release(slot_of(gdma_region)).released,
            ..self
        }
    }
}

impl View for HwState {
    type V = HwView;

    open spec fn view(&self) -> HwView {
        HwView {
            limits: self.limits,
            hwc_eq_id: self.hwc_eq_id,
            regions: self.dma_regions.map().map_values(|slot: DmaRegionState| slot@),
            released_regions: self.dma_regions.released(),
            pds: self.pds.keys(),
            mrs: self.mrs.keys(),
        }
    }
}

impl HwState {
    pub open spec fn wf(&self) -> bool {
        &&& self.dma_regions.wf()
        &&& self.pds.wf()
        &&& self.mrs.wf()
        &&& forall|key: usize| #[trigger]
            self@.regions.contains_key(key) ==> self@.regions[key].valid()
    }

    /// A state with nothing registered.
    pub fn new(limits: QueueLimits, hwc_eq_id: u32) -> (ret: Self)
        ensures
            ret.wf(),
            ret@ == (HwView {
                limits,
                hwc_eq_id,
                regions: Map::empty(),
                released_regions: Seq::empty(),
                pds: Keys::none(),
                mrs: Keys::none(),
            }),
    {
        let ret = HwState {
            limits,
            hwc_eq_id,
            dma_regions: Table::new(),
            pds: Table::new(),
            mrs: Table::new(),
        };
        assert(ret@.regions =~= Map::<usize, RegionSlot>::empty());
        assert(ret@.pds.live =~= Set::<usize>::empty());
        assert(ret@.mrs.live =~= Set::<usize>::empty());
        ret
    }

    pub fn get_dma_region(&self, gdma_region: u64, expected_size: u32) -> (ret: Result<
        &DmaRegion,
        HwcError,
    >)
        requires
            self.wf(),
        ensures
            match ret {
                Ok(region) => self@.region(gdma_region, expected_size) == Ok::<
                    RegionView,
                    HwcError,
                >(region@),
                Err(err) => self@.region(gdma_region, expected_size) == Err::<
                    RegionView,
                    HwcError,
                >(err),
            },
    {
        match self.dma_regions.get(slot(gdma_region)) {
            None => Err(HwcError::RegionNotFound),
            Some(DmaRegionState::Building(_)) => Err(HwcError::RegionIncomplete),
            Some(DmaRegionState::Ready(region)) => {
                if region.byte_len() != expected_size as u64 {
                    return Err(HwcError::RegionSizeMismatch);
                }
                Ok(region)
            },
        }
    }

    pub fn remove_dma_region(&mut self, gdma_region: u64) -> (ret: Result<(), HwcError>)
        requires
            old(self).wf(),
        ensures
            final(self).wf(),
            ret == if old(self)@.regions.contains_key(slot_of(gdma_region)) {
                Ok::<(), HwcError>(())
            } else {
                Err::<(), HwcError>(HwcError::RegionNotFound)
            },
            final(self)@ == old(self)@.remove_region(gdma_region),
    {
        assert(self@.region_keys() == self.dma_regions.keys()) by {
            assert(self@.regions.dom() =~= self.dma_regions.map().dom());
        }
        let removed = self.dma_regions.try_remove(slot(gdma_region));
        assert(self@.regions =~= old(self)@.regions.remove(slot_of(gdma_region)));
        match removed {
            Some(_) => Ok(()),
            None => Err(HwcError::RegionNotFound),
        }
    }

    fn insert_dma_region(&mut self, state: DmaRegionState) -> (key: usize)
        requires
            old(self).wf(),
            state@.valid(),
        ensures
            final(self).wf(),
            key == old(self)@.region_keys().next(),
            key < usize::MAX,
            final(self)@ == old(self)@.insert_region(state@),
    {
        assert(self@.region_keys() == self.dma_regions.keys()) by {
            assert(self@.regions.dom() =~= self.dma_regions.map().dom());
        }
        let key: usize = self.dma_regions.insert(state);
        assert(self@.regions =~= old(self)@.regions.insert(key, state@));
        key
    }

    /// An asynchronous link event on the channel's event queue.
    ///
    /// A vport does not implicitly come up "link up": the device reports the operational link
    /// state through a reconfiguration event, which some drivers wait for before they indicate
    /// media-connect. Link-up is reported when the guest enables vport receive, link-down when it
    /// disables it. The event names the vport by the low 24 bits of its index.
    pub fn post_vport_link_status(&self, vport_index: u32, connected: bool) -> (ret: EqPost)
        ensures
            ret@ == (PostView {
                eq_id: self@.hwc_eq_id,
                event: EventView::LinkStatus { vport: low_three_bytes(vport_index), connected },
            }),
    {
        let low: u8 = (vport_index % 256) as u8;
        let mid: u8 = ((vport_index / 256) % 256) as u8;
        let high: u8 = ((vport_index / 65536) % 256) as u8;
        let vport: [u8; 3] = [low, mid, high];
        assert(vport@ =~= low_three_bytes(vport_index));
        EqPost { eq_id: self.hwc_eq_id, event: EqEvent::LinkStatus { vport, connected } }
    }

    /// An asynchronous request on the channel's event queue that the guest tear the function down
    /// and rebuild it, without revoking anything.
    pub fn post_hwc_reset_request(&self) -> (ret: EqPost)
        ensures
            ret@ == (PostView {
                eq_id: self@.hwc_eq_id,
                event: EventView::ResetRequest { data: None },
            }),
    {
        EqPost { eq_id: self.hwc_eq_id, event: EqEvent::ResetRequest { data: None } }
    }
}

/// The low three bytes of an index, least significant first.
pub open spec fn low_three_bytes(index: u32) -> Seq<u8> {
    seq![
        (index % 256) as u8,
        ((index / 256) % 256) as u8,
        ((index / 65536) % 256) as u8,
    ]
}

/// The control side of an established channel.
pub struct HwControl {
    pub state: HwState,
    pub cq_id: u32,
    pub sq_id: u32,
    pub rq_id: u32,
    /// Whether the guest registered the network client. Registering is an optional confirmation:
    /// the client is addressable as soon as the channel is up.
    pub bnic_enabled: bool,
}

/// What a [`HwControl`] holds.
pub struct ControlView {
    pub state: HwView,
    pub cq_id: u32,
    pub sq_id: u32,
    pub rq_id: u32,
    pub bnic_enabled: bool,
}

impl View for HwControl {
    type V = ControlView;

    open spec fn view(&self) -> ControlView {
        ControlView {
            state: self.state@,
            cq_id: self.cq_id,
            sq_id: self.sq_id,
            rq_id: self.rq_id,
            bnic_enabled: self.bnic_enabled,
        }
    }
}

/// The identifier that mirrors a handle: the handle's slot, plus one, in 32 bits.
pub open spec fn id_of(key: usize) -> u32 {
    (key as u32).wrapping_add(1)
}

impl ControlView {
    pub open spec fn with_state(self, state: HwView) -> ControlView {
        ControlView { state, ..self }
    }

    pub open spec fn with_bnic(self, bnic_enabled: bool) -> ControlView {
        ControlView { bnic_enabled, ..self }
    }

    /// Creating a region from its first pages: the new slot's handle is the response.
    pub open spec fn create_region(
        self,
        pages: Seq<u64>,
        offset_in_page: u32,
        length: u64,
        page_count: u32,
    ) -> (ControlView, Result<StepView, HwcError>) {
        match BuilderView::start(pages, offset_in_page, length, page_count) {
            Err(err) => (self, Err(HwcError::Region(err))),
            Ok(builder) => {
                let slot = if !builder.complete() {
                    Ok(RegionSlot::Building(builder))
                } else {
                    match builder.finish() {
                        Ok(region) => Ok(RegionSlot::Ready(region)),
                        Err(err) => Err(HwcError::Region(err)),
                    }
                };
                match slot {
                    Err(err) => (self, Err(err)),
                    Ok(slot) => (
                        self.with_state(self.state.insert_region(slot)),
                        Ok(
                            StepView::Reply(
                                HwcResponse::DmaRegion {
                                    gdma_region: (self.state.region_keys().next() + 1) as u64,
                                },
                            ),
                        ),
                    ),
                }
            },
        }
    }

    /// Adding pages to a region. A list that turns out not to describe a region when its last
    /// page arrives is kept, and the request is refused.
    pub open spec fn add_pages(self, gdma_region: u64, pages: Seq<u64>) -> (
        ControlView,
        Result<StepView, HwcError>,
    ) {
        let key = slot_of(gdma_region);
        if !self.state.regions.contains_key(key) {
            (self, Err(HwcError::RegionNotFound))
        } else {
            match self.state.regions[key] {
                RegionSlot::Ready(_) => (self, Err(HwcError::RegionNotAwaitingPages)),
                RegionSlot::Building(builder) => match builder.append(pages) {
                    Err(err) => (self, Err(HwcError::Region(err))),
                    Ok(longer) => {
                        let (slot, ret) = if !longer.complete() {
                            (RegionSlot::Building(longer), Ok(StepView::Done))
                        } else {
                            match longer.finish() {
                                Ok(region) => (RegionSlot::Ready(region), Ok(StepView::Done)),
                                Err(err) => (
                                    RegionSlot::Building(longer),
                                    Err(HwcError::Region(err)),
                                ),
                            }
                        };
                        (
                            self.with_state(
                                HwView {
                                    regions: self.state.regions.insert(key, slot),
                                    ..self.state
                                },
                            ),
                            ret,
                        )
                    },
                },
            }
        }
    }

    /// The outcome of a core request: the state after it, and what is left to do or the reason for
    /// refusing it.
    pub open spec fn handle(self, dev_id: DeviceId, req: HwcRequest) -> (
        ControlView,
        Result<StepView, HwcError>,
    ) {
        match req {
            HwcRequest::GenerateTestEqe { queue_index } => (
                self,
                Ok(StepView::PostEq(PostView { eq_id: queue_index, event: EventView::Test })),
            ),
            HwcRequest::GenerateResetRequestEqe { queue_index, data } => (
                self,
                Ok(
                    StepView::PostEq(
                        PostView {
                            eq_id: queue_index,
                            event: EventView::ResetRequest { data: Some(data@) },
                        },
                    ),
                ),
            ),
            HwcRequest::VerifyVfDriverVersion { protocol_ver_min } => (
                self,
                Ok(
                    StepView::Reply(
                        HwcResponse::VerifyVersion {
                            gdma_protocol_ver: protocol_ver_min,
                            pf_cap_flags: 0,
                        },
                    ),
                ),
            ),
            HwcRequest::QueryMaxResources => (
                self,
                Ok(
                    StepView::Reply(
                        HwcResponse::MaxResources {
                            status: 0,
                            max_sq: self.state.limits.max_sqs,
                            max_rq: self.state.limits.max_rqs,
                            max_cq: self.state.limits.max_cqs,
                            max_eq: self.state.limits.max_eqs,
                            max_db: 1,
                            max_mst: 1,
                            max_cq_mod_ctx: 0,
                            max_mod_cq: 0,
                            max_msix: 64,
                        },
                    ),
                ),
            ),
            HwcRequest::ListDevices => (
                self,
                Ok(
                    StepView::Reply(
                        HwcResponse::Devices {
                            num_of_devs: 2,
                            first: hwc_dev_id_spec(),
                            second: bnic_dev_id_spec(),
                        },
                    ),
                ),
            ),
            HwcRequest::RegisterDevice => if dev_id != bnic_dev_id_spec() {
                (self, Err(HwcError::InvalidDevice))
            } else if self.bnic_enabled {
                (self, Err(HwcError::BnicAlreadyEnabled))
            } else {
                (
                    self.with_bnic(true),
                    Ok(
                        StepView::Reply(
                            HwcResponse::Registered { pdid: 0, gpa_mkey: 0, db_id: 0 },
                        ),
                    ),
                )
            },
            HwcRequest::DeregisterDevice => if dev_id != bnic_dev_id_spec() {
                (self, Err(HwcError::InvalidDevice))
            } else if !self.bnic_enabled {
                (self, Err(HwcError::BnicNotEnabled))
            } else {
                (self.with_bnic(false), Ok(StepView::Done))
            },
            HwcRequest::CreateDmaRegion { offset_in_page, length, page_count, pages } =>
                self.create_region(pages@, offset_in_page, length, page_count),
            HwcRequest::DmaRegionAddPages { gdma_region, pages } => self.add_pages(
                gdma_region,
                pages@,
            ),
            HwcRequest::DestroyDmaRegion { gdma_region } => (
                self.with_state(self.state.remove_region(gdma_region)),
                if self.state.regions.contains_key(slot_of(gdma_region)) {
                    Ok(StepView::Done)
                } else {
                    Err(HwcError::RegionNotFound)
                },
            ),
            HwcRequest::CreateQueue { queue_type, gdma_region, queue_size, eq_pci_msix_index } => (
                self,
                if queue_type != QueueType::Eq {
                    Err(HwcError::UnsupportedQueueType)
                } else {
                    match self.state.region(gdma_region, queue_size) {
                        Err(err) => Err(err),
                        Ok(region) => Ok(
                            StepView::AllocEq { gdma_region, region, msix: eq_pci_msix_index },
                        ),
                    }
                },
            ),
            HwcRequest::DisableQueue { queue_type, queue_index } => (
                self,
                if queue_type != QueueType::Eq {
                    Err(HwcError::UnsupportedQueueType)
                } else {
                    Ok(StepView::FreeEq { queue_index })
                },
            ),
            HwcRequest::ChangeMsixForEq { queue_index, msix } => (
                self,
                Ok(StepView::UpdateEqMsix { queue_index, msix }),
            ),
            HwcRequest::CreatePd => (
                self.with_state(HwView { pds: self.state.pds.take(), ..self.state }),
                Ok(
                    StepView::Reply(
                        HwcResponse::Pd {
                            pd_handle: (self.state.pds.next() + 1) as u64,
                            pd_id: id_of(self.state.pds.next()),
                        },
                    ),
                ),
            ),
            HwcRequest::DestroyPd { pd_handle } => (
                self.with_state(
                    HwView { pds: self.state.pds.release(slot_of(pd_handle)), ..self.state },
                ),
                if self.state.pds.live.contains(slot_of(pd_handle)) {
                    Ok(StepView::Done)
                } else {
                    Err(HwcError::UnknownPd)
                },
            ),
            HwcRequest::CreateMr { pd_handle } => if !self.state.pds.live.contains(
                slot_of(pd_handle),
            ) {
                (self, Err(HwcError::UnknownPd))
            } else {
                (
                    self.with_state(HwView { mrs: self.state.mrs.take(), ..self.state }),
                    Ok(
                        StepView::Reply(
                            HwcResponse::Mr {
                                mr_handle: (self.state.mrs.next() + 1) as u64,
                                lkey: id_of(self.state.mrs.next()),
                                rkey: id_of(self.state.mrs.next()),
                            },
                        ),
                    ),
                )
            },
            HwcRequest::DestroyMr { mr_handle } => (
                self.with_state(
                    HwView { mrs: self.state.mrs.release(slot_of(mr_handle)), ..self.state },
                ),
                if self.state.mrs.live.contains(slot_of(mr_handle)) {
                    Ok(StepView::Done)
                } else {
                    Err(HwcError::UnknownMr)
                },
            ),
            HwcRequest::Truncated => (self, Err(HwcError::Truncated)),
            HwcRequest::Unsupported { msg_type } => (
                self,
                Err(HwcError::UnsupportedMessage(msg_type)),
            ),
        }
    }
}

/// Whether a step, or the reason for a refusal, is the one expected.
pub open spec fn outcome_is(
    ret: Result<HwcStep, HwcError>,
    expected: Result<StepView, HwcError>,
) -> bool {
    match ret {
        Ok(step) => expected == Ok::<StepView, HwcError>(step@),
        Err(err) => expected == Err::<StepView, HwcError>(err),
    }
}

/// Takes the next key of a table that holds nothing but keys.
fn take_key(table: &mut Table<()>) -> (key: usize)
    requires
        old(table).wf(),
    ensures
        final(table).wf(),
        key == old(table).keys().next(),
        key < usize::MAX,
        final(table).keys() == old(table).keys().take(),
{
    table.insert(())
}

/// Releases a key of a table that holds nothing but keys.
fn release_key(table: &mut Table<()>, key: usize) -> (ret: bool)
    requires
        old(table).wf(),
    ensures
        final(table).wf(),
        ret == old(table).keys().live.contains(key),
        final(table).keys() == old(table).keys().release(key),
{
    table.try_remove(key).is_some()
}

impl HwControl {
    pub open spec fn wf(&self) -> bool {
        self.state.wf()
    }

    /// Adds pages to a region that is still being built.
    fn add_pages(&mut self, gdma_region: u64, pages: &Vec<u64>) -> (ret: Result<
        HwcStep,
        HwcError,
    >)
        requires
            old(self).wf(),
        ensures
            final(self).wf(),
            final(self)@ == old(self)@.add_pages(gdma_region, pages@).0,
            outcome_is(ret, old(self)@.add_pages(gdma_region, pages@).1),
    {
        let key: usize = slot(gdma_region);
        assert(self@.state.regions.contains_key(key) ==> self@.state.regions[key].valid());
        let ret = match self.state.dma_regions.get_mut(key) {
            None => Err(HwcError::RegionNotFound),
            Some(slot) => match slot {
                DmaRegionState::Ready(_) => Err(HwcError::RegionNotAwaitingPages),
                DmaRegionState::Building(builder) => match builder.add_pages(pages.as_slice()) {
                    Err(err) => Err(HwcError::Region(err)),
                    Ok(()) => if builder.is_complete() {
                        match builder.build() {
                            Ok(region) => {
                                *slot = DmaRegionState::Ready(region);
                                Ok(HwcStep::Done)
                            },
                            Err(err) => Err(HwcError::Region(err)),
                        }
                    } else {
                        Ok(HwcStep::Done)
                    },
                },
            },
        };
        assert(self@.state.regions =~= old(self)@.add_pages(gdma_region, pages@).0.state.regions);
        ret
    }

    /// Services a core request.
    pub fn handle_req(&mut self, dev_id: DeviceId, req: HwcRequest) -> (ret: Result<
        HwcStep,
        HwcError,
    >)
        requires
            old(self).wf(),
        ensures
            final(self).wf(),
            final(self)@ == old(self)@.handle(dev_id, req).0,
            outcome_is(ret, old(self)@.handle(dev_id, req).1),
    {
        match req {
            HwcRequest::GenerateTestEqe { queue_index } => Ok(
                HwcStep::PostEq(EqPost { eq_id: queue_index, event: EqEvent::Test }),
            ),
            HwcRequest::GenerateResetRequestEqe { queue_index, data } => Ok(
                HwcStep::PostEq(
                    EqPost {
                        eq_id: queue_index,
                        event: EqEvent::ResetRequest { data: Some(data) },
                    },
                ),
            ),
            HwcRequest::VerifyVfDriverVersion { protocol_ver_min } => Ok(
                HwcStep::Reply(
                    HwcResponse::VerifyVersion {
                        gdma_protocol_ver: protocol_ver_min,
                        pf_cap_flags: 0,
                    },
                ),
            ),
            HwcRequest::QueryMaxResources => Ok(
                HwcStep::Reply(
                    HwcResponse::MaxResources {
                        status: 0,
                        max_sq: self.state.limits.max_sqs,
                        max_rq: self.state.limits.max_rqs,
                        max_cq: self.state.limits.max_cqs,
                        max_eq: self.state.limits.max_eqs,
                        max_db: 1,
                        max_mst: 1,
                        max_cq_mod_ctx: 0,
                        max_mod_cq: 0,
                        max_msix: 64,
                    },
                ),
            ),
            HwcRequest::ListDevices => Ok(
                HwcStep::Reply(
                    HwcResponse::Devices {
                        num_of_devs: 2,
                        first: hwc_dev_id(),
                        second: bnic_dev_id(),
                    },
                ),
            ),
            HwcRequest::RegisterDevice => {
                if dev_id != bnic_dev_id() {
                    return Err(HwcError::InvalidDevice);
                }
                if self.bnic_enabled {
                    return Err(HwcError::BnicAlreadyEnabled);
                }
                self.bnic_enabled = true;
                Ok(HwcStep::Reply(HwcResponse::Registered { pdid: 0, gpa_mkey: 0, db_id: 0 }))
            },
            HwcRequest::DeregisterDevice => {
                if dev_id != bnic_dev_id() {
                    return Err(HwcError::InvalidDevice);
                }
                if !self.bnic_enabled {
                    return Err(HwcError::BnicNotEnabled);
                }
                self.bnic_enabled = false;
                Ok(HwcStep::Done)
            },
            HwcRequest::CreateDmaRegion { offset_in_page, length, page_count, pages } => {
                let builder = match DmaRegionBuilder::new(
                    pages,
                    offset_in_page,
                    length,
                    page_count,
                ) {
                    Ok(builder) => builder,
                    Err(err) => {
                        return Err(HwcError::Region(err));
                    },
                };
                // The guest may deliver the page list across multiple messages. Hold the region
                // as `Building` until it is whole, then finalize it.
                let state = if builder.is_complete() {
                    match builder.build() {
                        Ok(region) => DmaRegionState::Ready(region),
                        Err(err) => {
                            return Err(HwcError::Region(err));
                        },
                    }
                } else {
                    DmaRegionState::Building(builder)
                };
                let key: usize = self.state.insert_dma_region(state);
                Ok(HwcStep::Reply(HwcResponse::DmaRegion { gdma_region: key as u64 + 1 }))
            },
            HwcRequest::DmaRegionAddPages { gdma_region, pages } => self.add_pages(
                gdma_region,
                &pages,
            ),
            HwcRequest::DestroyDmaRegion { gdma_region } => {
                match self.state.remove_dma_region(gdma_region) {
                    Ok(()) => Ok(HwcStep::Done),
                    Err(err) => Err(err),
                }
            },
            HwcRequest::CreateQueue { queue_type, gdma_region, queue_size, eq_pci_msix_index } => {
                if queue_type != QueueType::Eq {
                    return Err(HwcError::UnsupportedQueueType);
                }
                match self.state.get_dma_region(gdma_region, queue_size) {
                    Ok(region) => Ok(
                        HwcStep::AllocEq {
                            gdma_region,
                            region: region.clone(),
                            msix: eq_pci_msix_index,
                        },
                    ),
                    Err(err) => Err(err),
                }
            },
            HwcRequest::DisableQueue { queue_type, queue_index } => {
                if queue_type != QueueType::Eq {
                    return Err(HwcError::UnsupportedQueueType);
                }
                Ok(HwcStep::FreeEq { queue_index })
            },
            HwcRequest::ChangeMsixForEq { queue_index, msix } => Ok(
                HwcStep::UpdateEqMsix { queue_index, msix },
            ),
            HwcRequest::CreatePd => {
                let key: usize = take_key(&mut self.state.pds);
                Ok(
                    HwcStep::Reply(
                        HwcResponse::Pd {
                            pd_handle: key as u64 + 1,
                            pd_id: (key as u32).wrapping_add(1),
                        },
                    ),
                )
            },
            HwcRequest::DestroyPd { pd_handle } => {
                if release_key(&mut self.state.pds, slot(pd_handle)) {
                    Ok(HwcStep::Done)
                } else {
                    Err(HwcError::UnknownPd)
                }
            },
            HwcRequest::CreateMr { pd_handle } => {
                // Only the handle matters: the data path never resolves the keys. The domain that
                // the region is registered in must be live.
                if !self.state.pds.contains(slot(pd_handle)) {
                    return Err(HwcError::UnknownPd);
                }
                let key: usize = take_key(&mut self.state.mrs);
                let mem_key: u32 = (key as u32).wrapping_add(1);
                Ok(
                    HwcStep::Reply(
                        HwcResponse::Mr {
                            mr_handle: key as u64 + 1,
                            lkey: mem_key,
                            rkey: mem_key,
                        },
                    ),
                )
            },
            HwcRequest::DestroyMr { mr_handle } => {
                if release_key(&mut self.state.mrs, slot(mr_handle)) {
                    Ok(HwcStep::Done)
                } else {
                    Err(HwcError::UnknownMr)
                }
            },
            HwcRequest::Truncated => Err(HwcError::Truncated),
            HwcRequest::Unsupported { msg_type } => Err(HwcError::UnsupportedMessage(msg_type)),
        }
    }
}

/// What follows once the work that a step asked for is done: the response body to write, if any.
pub open spec fn action_result(step: StepView, outcome: StepOutcome) -> Result<
    Option<HwcResponse>,
    HwcError,
> {
    match step {
        StepView::Done | StepView::PostEq(_) => Ok(None),
        StepView::Reply(response) => Ok(Some(response)),
        StepView::AllocEq { .. } => match outcome {
            StepOutcome::Allocated { queue_index } => Ok(Some(HwcResponse::Queue { queue_index })),
            _ => Err(HwcError::QueueAlloc),
        },
        StepView::FreeEq { .. } | StepView::UpdateEqMsix { .. } => match outcome {
            StepOutcome::Failed => Err(HwcError::UnknownQueue),
            _ => Ok(None),
        },
    }
}

impl HwControl {
    /// Decides on the response once the work that a step asked for is done.
    pub fn after_action(step: &HwcStep, outcome: StepOutcome) -> (ret: Result<
        Option<HwcResponse>,
        HwcError,
    >)
        ensures
            ret == action_result(step@, outcome),
    {
        match step {
            HwcStep::Done | HwcStep::PostEq(_) => Ok(None),
            HwcStep::Reply(response) => Ok(Some(*response)),
            HwcStep::AllocEq { .. } => match outcome {
                StepOutcome::Allocated { queue_index } => Ok(
                    Some(HwcResponse::Queue { queue_index }),
                ),
                _ => Err(HwcError::QueueAlloc),
            },
            HwcStep::FreeEq { .. } | HwcStep::UpdateEqMsix { .. } => match outcome {
                StepOutcome::Failed => Err(HwcError::UnknownQueue),
                _ => Ok(None),
            },
        }
    }

    /// Concludes a request after its response body was written, or could not be. A queue takes
    /// ownership of its region: the region's handle goes away with the response that names the
    /// queue.
    pub fn after_reply(&mut self, step: &HwcStep, written: bool) -> (ret: Result<(), HwcError>)
        requires
            old(self).wf(),
            written ==> (step@ matches StepView::AllocEq { gdma_region, .. }
                ==> old(self)@.state.regions.contains_key(slot_of(gdma_region))),
        ensures
            final(self).wf(),
            ret == if written {
                Ok::<(), HwcError>(())
            } else {
                Err::<(), HwcError>(HwcError::ResponseWrite)
            },
            final(self)@ == match step@ {
                StepView::AllocEq { gdma_region, .. } if written => old(self)@.with_state(
                    old(self)@.state.remove_region(gdma_region),
                ),
                _ => old(self)@,
            },
    {
        if !written {
            return Err(HwcError::ResponseWrite);
        }
        if let HwcStep::AllocEq { gdma_region, .. } = step {
            self.state.remove_dma_region(*gdma_region)
        } else {
            Ok(())
        }
    }
}

/// The header of one message.
#[derive(Clone, Copy, Debug, PartialEq, Eq, Structural)]
pub struct MessageHeader {
    pub hdr_type: u32,
    pub msg_type: u32,
    pub msg_version: u16,
    pub hwc_msg_id: u16,
    pub msg_size: u32,
}

/// The header of a request.
#[derive(Clone, Copy, Debug, PartialEq, Eq, Structural)]
pub struct RequestHeader {
    pub req: MessageHeader,
    /// The header that the guest wants on the response.
    pub resp: MessageHeader,
    pub dev_id: DeviceId,
    pub activity_id: u32,
}

impl RequestHeader {
    /// Whether the request is a command of a client rather than of the channel.
    pub open spec fn is_client_command(self) -> bool {
        self.req.msg_type >= 0x1_0000
    }
}

/// The queues that a work request names.
#[derive(Clone, Copy, Debug, PartialEq, Eq, Structural)]
pub struct HwcTxOob {
    pub vscq_id: u32,
    pub vsq_id: u32,
}

/// Why a channel stops.
#[derive(Clone, Copy, Debug, PartialEq, Eq, Structural)]
pub enum ChannelFailure {
    /// The work request carries no out-of-band data.
    TxOob,
    MismatchedCq,
    MismatchedSq,
    /// The request header cannot be read.
    Header,
    RequestTooLong,
    ResponseTooLong,
    ResponseTooSmall,
    /// The response header could not be written.
    HeaderWrite,
}

/// Who answers a request.
#[derive(Clone, Copy, Debug, PartialEq, Eq, Structural)]
pub enum Target {
    Core,
    Bnic,
    UnknownDevice,
}

/// A request that the channel passes on, with the number of bytes that are left for the body of
/// its response.
#[derive(Clone, Copy, Debug, PartialEq, Eq, Structural)]
pub struct Accepted {
    pub target: Target,
    pub room: usize,
}

/// Whom a request goes to. A client command is passed on as soon as the channel is up, whether or
/// not the guest registered the client before.
pub open spec fn target_of(hdr: RequestHeader) -> Target {
    if !hdr.is_client_command() {
        Target::Core
    } else if hdr.dev_id == bnic_dev_id_spec() {
        Target::Bnic
    } else {
        Target::UnknownDevice
    }
}

/// The smaller of two lengths.
pub open spec fn smaller(a: int, b: int) -> int {
    if a <= b {
        a
    } else {
        b
    }
}

impl ControlView {
    /// The verdict on a work request of `req_len` bytes whose response goes to a buffer of
    /// `resp_len` bytes, of which a response header takes `resp_hdr_len`.
    pub open spec fn accept(
        self,
        oob: Option<HwcTxOob>,
        hdr: Option<RequestHeader>,
        req_len: usize,
        resp_len: usize,
        resp_hdr_len: usize,
    ) -> Result<Accepted, ChannelFailure> {
        match (oob, hdr) {
            (None, _) => Err(ChannelFailure::TxOob),
            (Some(oob), _) if oob.vscq_id != self.cq_id => Err(ChannelFailure::MismatchedCq),
            (Some(oob), _) if oob.vsq_id != self.sq_id => Err(ChannelFailure::MismatchedSq),
            (_, None) => Err(ChannelFailure::Header),
            (_, Some(hdr)) => if req_len > PAGE_SIZE64 {
                Err(ChannelFailure::RequestTooLong)
            } else if hdr.resp.msg_size > PAGE_SIZE64 {
                Err(ChannelFailure::ResponseTooLong)
            } else if smaller(resp_len as int, hdr.resp.msg_size as int) < resp_hdr_len {
                Err(ChannelFailure::ResponseTooSmall)
            } else {
                Ok(
                    Accepted {
                        target: target_of(hdr),
                        room: (smaller(resp_len as int, hdr.resp.msg_size as int)
                            - resp_hdr_len) as usize,
                    },
                )
            },
        }
    }
}

/// The outcome of a request, as its response header tells it.
#[derive(Clone, Copy, Debug, PartialEq, Eq, Structural)]
pub enum ResponseStatus {
    Success,
    /// The generic failure.
    Failed,
    /// A failure of the network client.
    Bnic(BnicStatus),
}

impl ResponseStatus {
    pub open spec fn code_spec(self) -> Option<u32> {
        match self {
            ResponseStatus::Success => Some(0),
            ResponseStatus::Failed => Some(1),
            ResponseStatus::Bnic(BnicStatus::InvalidWqHandle) => Some(29),
            ResponseStatus::Bnic(BnicStatus::NotSetByHandler) => Some(0x1f),
            ResponseStatus::Bnic(BnicStatus::UnsupportedQueueType) => Some(36),
            ResponseStatus::Bnic(BnicStatus::CommandUnsupported) => Some(0xffff_ffff),
            ResponseStatus::Bnic(_) => None,
        }
    }

    /// The number that stands for the outcome in the header. `None` for a failure of the network
    /// client whose number is known to the encoder of the header alone.
    #[verifier::when_used_as_spec(code_spec)]
    pub fn code(self) -> (ret: Option<u32>)
        ensures
            ret == self.code_spec(),
            self is Success <==> ret == Some(0u32),
    {
        match self {
            ResponseStatus::Success => Some(0),
            ResponseStatus::Failed => Some(1),
            ResponseStatus::Bnic(BnicStatus::InvalidWqHandle) => Some(29),
            ResponseStatus::Bnic(BnicStatus::NotSetByHandler) => Some(0x1f),
            ResponseStatus::Bnic(BnicStatus::UnsupportedQueueType) => Some(36),
            ResponseStatus::Bnic(BnicStatus::CommandUnsupported) => Some(0xffff_ffff),
            ResponseStatus::Bnic(_) => None,
        }
    }
}

/// The header of a response.
#[derive(Clone, Copy, Debug, PartialEq, Eq, Structural)]
pub struct ResponseHeader {
    pub response: MessageHeader,
    pub dev_id: DeviceId,
    pub activity_id: u32,
    pub status: ResponseStatus,
}

/// How a request ended: with a response body of some length, or refused, perhaps with a status
/// that the network client gave.
#[derive(Clone, Copy, Debug, PartialEq, Eq, Structural)]
pub enum RequestOutcome {
    Answered { response_len: usize },
    Refused { status: Option<BnicStatus> },
}

/// The status that a response carries. A refused client command carries the status that its
/// handler gave, and the client's own default where it gave none; a refused core request carries
/// the generic failure.
pub open spec fn response_status(hdr: RequestHeader, outcome: RequestOutcome) -> ResponseStatus {
    match outcome {
        RequestOutcome::Answered { .. } => ResponseStatus::Success,
        RequestOutcome::Refused { status: Some(status) } => ResponseStatus::Bnic(status),
        RequestOutcome::Refused { status: None } => if hdr.is_client_command() && hdr.dev_id
            == bnic_dev_id_spec() {
            ResponseStatus::Bnic(BnicStatus::NotSetByHandler)
        } else {
            ResponseStatus::Failed
        },
    }
}

/// How long a response body is: a refused request has none.
pub open spec fn body_len(outcome: RequestOutcome) -> usize {
    match outcome {
        RequestOutcome::Answered { response_len } => response_len,
        RequestOutcome::Refused { .. } => 0,
    }
}

/// What ends a request, in this order: the completion of the work request, the header of the
/// response, and, once that is written, the completion of the receive buffer.
pub struct HwcReply {
    pub sent: CqPost,
    pub header: ResponseHeader,
    pub received: CqPost,
}

impl HwControl {
    /// Checks a work request and finds out whom it goes to.
    ///
    /// The length of a request is that of the work request, not the one its header claims: a
    /// physical function puts the fixed size of the request into the header and conveys a
    /// variable-length trailer by the length of the work request alone.
    pub fn accept(
        &self,
        oob: Option<HwcTxOob>,
        hdr: Option<RequestHeader>,
        req_len: usize,
        resp_len: usize,
        resp_hdr_len: usize,
    ) -> (ret: Result<Accepted, ChannelFailure>)
        ensures
            ret == self@.accept(oob, hdr, req_len, resp_len, resp_hdr_len),
    {
        let oob = match oob {
            Some(oob) => oob,
            None => {
                return Err(ChannelFailure::TxOob);
            },
        };
        if oob.vscq_id != self.cq_id {
            return Err(ChannelFailure::MismatchedCq);
        }
        if oob.vsq_id != self.sq_id {
            return Err(ChannelFailure::MismatchedSq);
        }
        let hdr = match hdr {
            Some(hdr) => hdr,
            None => {
                return Err(ChannelFailure::Header);
            },
        };
        if req_len as u64 > PAGE_SIZE64 {
            return Err(ChannelFailure::RequestTooLong);
        }
        if hdr.resp.msg_size as u64 > PAGE_SIZE64 {
            return Err(ChannelFailure::ResponseTooLong);
        }
        let msg_size: usize = hdr.resp.msg_size as usize;
        let limit: usize = if resp_len <= msg_size {
            resp_len
        } else {
            msg_size
        };
        if limit < resp_hdr_len {
            return Err(ChannelFailure::ResponseTooSmall);
        }
        let room: usize = limit - resp_hdr_len;
        let target = if hdr.req.msg_type < 0x1_0000 {
            Target::Core
        } else if hdr.dev_id == bnic_dev_id() {
            Target::Bnic
        } else {
            Target::UnknownDevice
        };
        Ok(Accepted { target, room })
    }

    /// Ends a request.
    pub fn respond(
        &self,
        hdr: RequestHeader,
        outcome: RequestOutcome,
        rqe_offset: u32,
        resp_hdr_len: usize,
    ) -> (ret: HwcReply)
        requires
            resp_hdr_len + body_len(outcome) <= u32::MAX,
        ensures
            ret.sent@ == (CqPostView {
                cq_id: self@.cq_id,
                cqe: CqeView::Empty,
                wq_id: self@.sq_id,
                is_send: true,
            }),
            ret.header == (ResponseHeader {
                response: hdr.resp,
                dev_id: hdr.dev_id,
                activity_id: hdr.activity_id,
                status: response_status(hdr, outcome),
            }),
            ret.received@ == (CqPostView {
                cq_id: self@.cq_id,
                cqe: CqeView::Hwc {
                    wqe_addr_low_or_offset: rqe_offset,
                    tx_oob_data_size: (resp_hdr_len + body_len(outcome)) as u32,
                },
                wq_id: self@.rq_id,
                is_send: false,
            }),
    {
        let (status, response_len) = match outcome {
            RequestOutcome::Answered { response_len } => (ResponseStatus::Success, response_len),
            RequestOutcome::Refused { status: Some(status) } => (ResponseStatus::Bnic(status), 0),
            RequestOutcome::Refused { status: None } => (
                if hdr.req.msg_type >= 0x1_0000 && hdr.dev_id == bnic_dev_id() {
                    ResponseStatus::Bnic(BnicStatus::NotSetByHandler)
                } else {
                    ResponseStatus::Failed
                },
                0,
            ),
        };
        HwcReply {
            sent: CqPost {
                cq_id: self.cq_id,
                cqe: Cqe::Empty,
                wq_id: self.sq_id,
                is_send: true,
            },
            header: ResponseHeader {
                response: hdr.resp,
                dev_id: hdr.dev_id,
                activity_id: hdr.activity_id,
                status,
            },
            received: CqPost {
                cq_id: self.cq_id,
                cqe: Cqe::Hwc {
                    wqe_addr_low_or_offset: rqe_offset,
                    tx_oob_data_size: (resp_hdr_len + response_len) as u32,
                },
                wq_id: self.rq_id,
                is_send: false,
            },
        }
    }
}

/// Where the guest put the queues of a channel that is to be established.
#[derive(Clone, Copy, Debug, PartialEq, Eq, Structural)]
pub struct ChannelQueues {
    pub sq_gpa: u64,
    pub rq_gpa: u64,
    pub cq_gpa: u64,
    pub eq_gpa: u64,
    pub eq_msix: u32,
}

impl ChannelQueues {
    /// Every queue starts on a page boundary.
    pub open spec fn aligned(self) -> bool {
        &&& self.sq_gpa % PAGE_SIZE64 == 0
        &&& self.rq_gpa % PAGE_SIZE64 == 0
        &&& self.cq_gpa % PAGE_SIZE64 == 0
        &&& self.eq_gpa % PAGE_SIZE64 == 0
    }
}

/// The region that is exactly the page at an address.
pub open spec fn one_page(gpa: u64) -> RegionView {
    RegionView { gpns: seq![gpa / PAGE_SIZE64], start: 0, len: PAGE_SIZE64 as nat }
}

fn page_region(gpa: u64) -> (ret: DmaRegion)
    requires
        gpa % PAGE_SIZE64 == 0,
    ensures
        ret@ == one_page(gpa),
{
    let mut gpas: Vec<u64> = Vec::new();
    gpas.push(gpa);
    let region = DmaRegion::new(gpas, 0, PAGE_SIZE64);
    assert(region_of(gpas@, 0, PAGE_SIZE64) == Ok::<RegionView, DmaError>(one_page(gpa))) by {
        assert(crate::dma::page_numbers(gpas@) =~= seq![gpa / PAGE_SIZE64]);
    }
    region.unwrap()
}

/// A queue to be allocated for a channel.
pub enum SetupRequest {
    AllocWq { is_send: bool, region: DmaRegion },
    AllocEq { region: DmaRegion, msix: u32 },
    AllocCq { region: DmaRegion, eq_id: u32 },
}

/// What a queue to be allocated looks like.
pub enum SetupView {
    AllocWq { is_send: bool, region: RegionView },
    AllocEq { region: RegionView, msix: u32 },
    AllocCq { region: RegionView, eq_id: u32 },
}

impl View for SetupRequest {
    type V = SetupView;

    open spec fn view(&self) -> SetupView {
        match self {
            SetupRequest::AllocWq { is_send, region } => SetupView::AllocWq {
                is_send: *is_send,
                region: region@,
            },
            SetupRequest::AllocEq { region, msix } => SetupView::AllocEq {
                region: region@,
                msix: *msix,
            },
            SetupRequest::AllocCq { region, eq_id } => SetupView::AllocCq {
                region: region@,
                eq_id: *eq_id,
            },
        }
    }
}

/// A channel whose queues are being allocated, one after the other.
pub struct HwcSetup {
    pub queues: ChannelQueues,
    /// The identifiers of the queues allocated so far: send, receive, event, completion.
    pub ids: Vec<u32>,
}

/// The queue to allocate next, given the identifiers of those before it.
pub open spec fn setup_step(queues: ChannelQueues, ids: Seq<u32>) -> Option<SetupView> {
    if ids.len() == 0 {
        Some(SetupView::AllocWq { is_send: true, region: one_page(queues.sq_gpa) })
    } else if ids.len() == 1 {
        Some(SetupView::AllocWq { is_send: false, region: one_page(queues.rq_gpa) })
    } else if ids.len() == 2 {
        Some(SetupView::AllocEq { region: one_page(queues.eq_gpa), msix: queues.eq_msix })
    } else if ids.len() == 3 {
        Some(SetupView::AllocCq { region: one_page(queues.cq_gpa), eq_id: ids[2] })
    } else {
        None
    }
}

/// The events that tell the guest about its new channel.
pub open spec fn init_events(
    sq_id: u32,
    rq_id: u32,
    eq_id: u32,
    cq_id: u32,
    max_cqs: u32,
) -> Seq<EventView> {
    seq![
        EventView::InitEqIdDb { eq_id: eq_id as u16, doorbell: 0 },
        EventView::InitData { ty: InitParameter::CqId, value: cq_id },
        EventView::InitData { ty: InitParameter::RqId, value: rq_id },
        EventView::InitData { ty: InitParameter::SqId, value: sq_id },
        EventView::InitData { ty: InitParameter::QueueDepth, value: 1 },
        EventView::InitData { ty: InitParameter::MaxRequest, value: 0x1000 },
        EventView::InitData { ty: InitParameter::MaxResponse, value: 0x1000 },
        EventView::InitData { ty: InitParameter::MaxNumCqs, value: max_cqs },
        EventView::InitData { ty: InitParameter::PdId, value: 0 },
        EventView::InitData { ty: InitParameter::GpaMkey, value: 0 },
        EventView::InitDone,
    ]
}

impl HwcSetup {
    pub fn new(queues: ChannelQueues) -> (ret: Self)
        ensures
            ret.queues == queues,
            ret.ids@ == Seq::<u32>::empty(),
    {
        HwcSetup { queues, ids: Vec::new() }
    }

    /// The queue to allocate next; `None` once all of them are there.
    pub fn next(&self) -> (ret: Option<SetupRequest>)
        requires
            self.queues.aligned(),
        ensures
            match ret {
                Some(request) => setup_step(self.queues, self.ids@) == Some(request@),
                None => setup_step(self.queues, self.ids@) is None,
            },
    {
        if self.ids.len() == 0 {
            Some(
                SetupRequest::AllocWq { is_send: true, region: page_region(self.queues.sq_gpa) },
            )
        } else if self.ids.len() == 1 {
            Some(
                SetupRequest::AllocWq { is_send: false, region: page_region(self.queues.rq_gpa) },
            )
        } else if self.ids.len() == 2 {
            Some(
                SetupRequest::AllocEq {
                    region: page_region(self.queues.eq_gpa),
                    msix: self.queues.eq_msix,
                },
            )
        } else if self.ids.len() == 3 {
            Some(
                SetupRequest::AllocCq {
                    region: page_region(self.queues.cq_gpa),
                    eq_id: self.ids[2],
                },
            )
        } else {
            None
        }
    }

    /// Records the queue that was asked for last.
    pub fn allocated(&mut self, id: u32)
        ensures
            final(self).queues == old(self).queues,
            final(self).ids@ == old(self).ids@.push(id),
    {
        self.ids.push(id);
    }
}

impl HwControl {
    /// The channel over queues that were all allocated, and the events that announce it on its
    /// event queue.
    pub fn new(setup: &HwcSetup, limits: QueueLimits) -> (ret: (Self, Vec<EqEvent>))
        requires
            setup.ids@.len() == 4,
        ensures
            ret.0.wf(),
            ret.0@ == (ControlView {
                state: HwView {
                    limits,
                    hwc_eq_id: setup.ids@[2],
                    regions: Map::empty(),
                    released_regions: Seq::empty(),
                    pds: Keys::none(),
                    mrs: Keys::none(),
                },
                cq_id: setup.ids@[3],
                sq_id: setup.ids@[0],
                rq_id: setup.ids@[1],
                bnic_enabled: false,
            }),
            ret.1@.map_values(|event: EqEvent| event@) == init_events(
                setup.ids@[0],
                setup.ids@[1],
                setup.ids@[2],
                setup.ids@[3],
                limits.max_cqs,
            ),
    {
        let sq_id: u32 = setup.ids[0];
        let rq_id: u32 = setup.ids[1];
        let eq_id: u32 = setup.ids[2];
        let cq_id: u32 = setup.ids[3];
        let mut events: Vec<EqEvent> = Vec::new();
        events.push(EqEvent::InitEqIdDb { eq_id: eq_id as u16, doorbell: 0 });
        events.push(EqEvent::InitData { ty: InitParameter::CqId, value: cq_id });
        events.push(EqEvent::InitData { ty: InitParameter::RqId, value: rq_id });
        events.push(EqEvent::InitData { ty: InitParameter::SqId, value: sq_id });
        events.push(EqEvent::InitData { ty: InitParameter::QueueDepth, value: 1 });
        events.push(EqEvent::InitData { ty: InitParameter::MaxRequest, value: 0x1000 });
        events.push(EqEvent::InitData { ty: InitParameter::MaxResponse, value: 0x1000 });
        events.push(EqEvent::InitData { ty: InitParameter::MaxNumCqs, value: limits.max_cqs });
        events.push(EqEvent::InitData { ty: InitParameter::PdId, value: 0 });
        events.push(EqEvent::InitData { ty: InitParameter::GpaMkey, value: 0 });
        events.push(EqEvent::InitDone);
        assert(events@.map_values(|event: EqEvent| event@) =~= init_events(
            sq_id,
            rq_id,
            eq_id,
            cq_id,
            limits.max_cqs,
        ));
        (
            HwControl {
                state: HwState::new(limits, eq_id),
                cq_id,
                sq_id,
                rq_id,
                bnic_enabled: false,
            },
            events,
        )
    }
}

/// A response tells success exactly of a request that was answered. A refused core request tells
/// the generic failure, and a refused command of the network client the status that its handler
/// gave, or else the client's default.
pub proof fn refusals_carry_their_status(hdr: RequestHeader, outcome: RequestOutcome)
    ensures
        response_status(hdr, outcome) is Success <==> outcome is Answered,
        outcome matches RequestOutcome::Refused { status } ==> match status {
            Some(status) => response_status(hdr, outcome) == ResponseStatus::Bnic(status),
            None => response_status(hdr, outcome) == if target_of(hdr) == Target::Bnic {
                ResponseStatus::Bnic(BnicStatus::NotSetByHandler)
            } else {
                ResponseStatus::Failed
            },
        },
        outcome is Refused ==> body_len(outcome) == 0,
{
}

/// A handle that was just made names the slot it was made for, and no handle is zero.
pub proof fn handle_names_its_slot(key: usize)
    requires
        key < usize::MAX,
    ensures
        slot_of((key + 1) as u64) == key,
        (key + 1) as u64 != 0,
{
}

/// Zero names no region, no protection domain and no memory region, whatever the state.
pub proof fn zero_handle_names_nothing(state: &HwState)
    requires
        state.wf(),
    ensures
        !state@.regions.contains_key(slot_of(0)),
        !state@.pds.live.contains(slot_of(0)),
        !state@.mrs.live.contains(slot_of(0)),
{
    state.dma_regions.keys_are_valid();
    state.pds.keys_are_valid();
    state.mrs.keys_are_valid();
    let all: u64 = 0xffff_ffff_ffff_ffff;
    let most: usize = usize::MAX;
    assert(most <= all as usize) by (bit_vector)
        requires
            all == 0xffff_ffff_ffff_ffffu64,
    ;
}

/// A new region gets a handle that no other region has, and leaves the others as they were.
pub proof fn new_region_disturbs_no_other(state: &HwState, slot: RegionSlot)
    requires
        state.wf(),
        state@.region_keys().has_next(),
    ensures
        !state@.regions.contains_key(state@.region_keys().next()),
        forall|key: usize| #[trigger]
            state@.regions.contains_key(key) ==> state@.insert_region(slot).regions.contains_key(
                key,
            ) && state@.insert_region(slot).regions[key] == state@.regions[key],
{
    state.dma_regions.keys_are_valid();
    assert(state@.region_keys() == state.dma_regions.keys()) by {
        assert(state@.regions.dom() =~= state.dma_regions.map().dom());
    }
    crate::table::next_key_is_fresh(state@.region_keys());
}

/// A region that was created can be destroyed by the handle from the response, once: the regions
/// are then the ones there were before, and destroying it again is refused.
pub proof fn create_then_destroy_region(
    control: &HwControl,
    dev_id: DeviceId,
    create: HwcRequest,
    gdma_region: u64,
)
    requires
        control.wf(),
        create is CreateDmaRegion,
        control@.state.region_keys().has_next(),
        control@.handle(dev_id, create).1 == Ok::<StepView, HwcError>(
            StepView::Reply(HwcResponse::DmaRegion { gdma_region }),
        ),
    ensures
        ({
            let destroy = HwcRequest::DestroyDmaRegion { gdma_region };
            let created = control@.handle(dev_id, create).0;
            let (destroyed, ret) = created.handle(dev_id, destroy);
            &&& ret == Ok::<StepView, HwcError>(StepView::Done)
            &&& destroyed.state.regions == control@.state.regions
            &&& destroyed.handle(dev_id, destroy).1 == Err::<StepView, HwcError>(
                HwcError::RegionNotFound,
            )
        }),
{
    let key = control@.state.region_keys().next();
    handle_names_its_slot(key);
    control.state.dma_regions.keys_are_valid();
    assert(control@.state.region_keys() == control.state.dma_regions.keys()) by {
        assert(control@.state.regions.dom() =~= control.state.dma_regions.map().dom());
    }
    crate::table::next_key_is_fresh(control@.state.region_keys());
    let destroy = HwcRequest::DestroyDmaRegion { gdma_region };
    let created = control@.handle(dev_id, create).0;
    let (destroyed, ret) = created.handle(dev_id, destroy);
    assert(destroyed.state.regions =~= control@.state.regions);
}

/// A protection domain that was created can be destroyed by its handle, once.
pub proof fn create_then_destroy_pd(control: &HwControl, dev_id: DeviceId)
    requires
        control.wf(),
        control@.state.pds.has_next(),
    ensures
        ({
            let (created, reply) = control@.handle(dev_id, HwcRequest::CreatePd);
            let pd_handle = (control@.state.pds.next() + 1) as u64;
            let destroy = HwcRequest::DestroyPd { pd_handle };
            let (destroyed, ret) = created.handle(dev_id, destroy);
            &&& reply == Ok::<StepView, HwcError>(
                StepView::Reply(
                    HwcResponse::Pd { pd_handle, pd_id: id_of(control@.state.pds.next()) },
                ),
            )
            &&& pd_handle != 0
            &&& !control@.state.pds.live.contains(slot_of(pd_handle))
            &&& ret == Ok::<StepView, HwcError>(StepView::Done)
            &&& destroyed.state.pds.live == control@.state.pds.live
            &&& destroyed.handle(dev_id, destroy).1 == Err::<StepView, HwcError>(
                HwcError::UnknownPd,
            )
        }),
{
    let key = control@.state.pds.next();
    handle_names_its_slot(key);
    control.state.pds.keys_are_valid();
    crate::table::next_key_is_fresh(control@.state.pds);
    assert(control@.state.pds.live.insert(key).remove(key) =~= control@.state.pds.live);
}

/// A memory region is registered exactly where its protection domain is live; it then has keys
/// like its handle, and can be destroyed by that handle, once.
pub proof fn create_then_destroy_mr(control: &HwControl, dev_id: DeviceId, pd_handle: u64)
    requires
        control.wf(),
        control@.state.mrs.has_next(),
    ensures
        ({
            let (created, reply) = control@.handle(dev_id, HwcRequest::CreateMr { pd_handle });
            let mr_handle = (control@.state.mrs.next() + 1) as u64;
            let mem_key = id_of(control@.state.mrs.next());
            let destroy = HwcRequest::DestroyMr { mr_handle };
            let (destroyed, ret) = created.handle(dev_id, destroy);
            if control@.state.pds.live.contains(slot_of(pd_handle)) {
                &&& reply == Ok::<StepView, HwcError>(
                    StepView::Reply(HwcResponse::Mr { mr_handle, lkey: mem_key, rkey: mem_key }),
                )
                &&& mr_handle != 0
                &&& !control@.state.mrs.live.contains(slot_of(mr_handle))
                &&& ret == Ok::<StepView, HwcError>(StepView::Done)
                &&& destroyed.state.mrs.live == control@.state.mrs.live
                &&& destroyed.handle(dev_id, destroy).1 == Err::<StepView, HwcError>(
                    HwcError::UnknownMr,
                )
            } else {
                reply == Err::<StepView, HwcError>(HwcError::UnknownPd) && created == control@
            }
        }),
{
    let key = control@.state.mrs.next();
    handle_names_its_slot(key);
    control.state.mrs.keys_are_valid();
    crate::table::next_key_is_fresh(control@.state.mrs);
    assert(control@.state.mrs.live.insert(key).remove(key) =~= control@.state.mrs.live);
}

/// The keys of a memory region are usable, that is, not zero, as long as fewer slots are in use
/// than 32 bits count.
pub proof fn memory_keys_are_not_zero(key: usize)
    requires
        key < u32::MAX,
    ensures
        id_of(key) != 0,
        id_of(key) == key + 1,
{
}

/// A region whose page list arrives in two messages ends up as the region whose list arrives in
/// one: once the second message is in, the same slot holds the same region.
pub proof fn split_page_list_makes_the_same_region(
    control: ControlView,
    first: Seq<u64>,
    rest: Seq<u64>,
    offset_in_page: u32,
    length: u64,
    page_count: u32,
)
    requires
        rest.len() > 0,
        control.state.region_keys().has_next(),
        control.create_region(first + rest, offset_in_page, length, page_count).1 is Ok,
    ensures
        ({
            let whole = control.create_region(first + rest, offset_in_page, length, page_count);
            let part = control.create_region(first, offset_in_page, length, page_count);
            let gdma_region = (control.state.region_keys().next() + 1) as u64;
            let joined = part.0.add_pages(gdma_region, rest);
            &&& part.1 == whole.1
            &&& joined.1 == Ok::<StepView, HwcError>(StepView::Done)
            &&& joined.0.state.regions == whole.0.state.regions
        }),
{
    let key = control.state.region_keys().next();
    handle_names_its_slot(key);
    let whole = control.create_region(first + rest, offset_in_page, length, page_count);
    let part = control.create_region(first, offset_in_page, length, page_count);
    let gdma_region = (key + 1) as u64;
    let joined = part.0.add_pages(gdma_region, rest);
    assert(joined.0.state.regions =~= whole.0.state.regions);
}

/// A region can be bound to an event queue exactly when all its pages have arrived and its length
/// is that of the queue; it stays in place until the response that names the queue is written.
pub proof fn queue_needs_a_whole_region_of_its_size(
    control: ControlView,
    dev_id: DeviceId,
    gdma_region: u64,
    queue_size: u32,
    msix: u32,
)
    ensures
        ({
            let (after, ret) = control.handle(
                dev_id,
                HwcRequest::CreateQueue {
                    queue_type: QueueType::Eq,
                    gdma_region,
                    queue_size,
                    eq_pci_msix_index: msix,
                },
            );
            &&& after == control
            &&& ret is Ok <==> control.state.regions.contains_key(slot_of(gdma_region)) && (
            control.state.regions[slot_of(gdma_region)] matches RegionSlot::Ready(region)
                && region.len == queue_size)
        }),
{
}

/// Two chunks of pages that are added one after the other leave what both of them in one would.
pub proof fn chunks_add_up(builder: BuilderView, first: Seq<u64>, second: Seq<u64>)
    requires
        first.len() > 0,
        second.len() > 0,
        builder.append(first + second) is Ok,
    ensures
        builder.append(first) is Ok,
        builder.append(first)->Ok_0.append(second) == builder.append(first + second),
{
    assert((builder.page_addrs + first) + second =~= builder.page_addrs + (first + second));
}

} // verus!
