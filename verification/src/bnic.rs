//! The basic network client of the device: its vports, their queues, and the commands by which
//! the guest driver sets them up.

use crate::bytes::{copy_bytes, get_le64, le64_at, splice, write_bytes, zero_bytes, zeroes};
use crate::completion::{fence_completion, CqPost, CqPostView, Cqe, CqeView, RxCompletionView};
use crate::dma::{DmaRegion, RegionView};
use crate::hwc::{EqPost, HwState, HwView, HwcError, PostView, QueueType};
use crate::rss::MANA_HASH_KEY_SIZE;
use vstd::prelude::*;

verus! {

/// Default adapter MTU. Drivers that negotiate the second message version require at least the
/// smallest Ethernet frame and reject zero, so report the standard frame length, which yields a
/// 1500-byte L3 MTU once the 14-byte Ethernet header is subtracted.
pub const MANA_DEFAULT_ADAPTER_MTU: u16 = 1514;

/// Number of entries in the indirection table advertised to the guest. The guest hashes each
/// received flow into this many buckets, then maps each bucket to a receive queue.
pub const MANA_INDIRECTION_TABLE_SIZE: u32 = 128;

/// Upper bound on the number of send/receive queues advertised per vport. The effective count is
/// additionally clamped to what the backend endpoint supports.
pub const MANA_MAX_QUEUES_PER_VPORT: u16 = 16;

/// Receive coalescing window, in nanoseconds, reported to the driver. The data path does not arm a
/// timer: it coalesces whatever receive completions are ready in a single poll.
pub const MANA_RX_CQE_COALESCING_TIMEOUT_NS: u32 = 2048;

/// The device's nominal line rate in megabits per second.
pub const MANA_DEFAULT_LINK_SPEED_MBPS: u32 = 200_000;

/// The message version from which on a receive configuration carries the coalescing byte.
pub const GDMA_MESSAGE_V2: u16 = 2;

/// A failure that the network client tells apart in the header of its response.
#[derive(Clone, Copy, Debug, PartialEq, Eq, Structural)]
pub enum BnicStatus {
    InvalidVportHandle,
    InvalidVportIndex,
    InvalidWqHandle,
    InvalidWqType,
    UnsupportedQueueType,
    /// A handler failed without saying why.
    NotSetByHandler,
    /// The device does not implement the command. Guests tolerate this status, whereas any other
    /// failure of a command is a hard error to them.
    CommandUnsupported,
}

/// Why a command was refused.
#[derive(Clone, Copy, Debug, PartialEq, Eq, Structural)]
pub enum BnicFailure {
    /// The message ends before its fixed fields do.
    Truncated,
    InvalidVport,
    UnsupportedQueueType,
    Region(HwcError),
    WqAlloc,
    CqAlloc,
    QueueStillInUse,
    QueueDoesNotExist,
    /// The message ends before the coalescing byte.
    CoalescingByte,
    QueuesNotConfigured,
    /// The indirection table is said to begin within the fixed fields.
    TableOverlapsRequest,
    /// The indirection table is said to begin behind the message.
    TableBeyondRequest,
    /// The message ends within the indirection table.
    TableTruncated,
    /// The indirection table names a queue that does not exist.
    UnknownRxQueue,
    /// The backend did not provide its queues.
    Backend,
    /// The backend provided another number of queues than it was asked for.
    BackendQueueCount,
    MoveFilter,
    Unsupported(u32),
    ResponseWrite,
}

/// A refusal tagged with the specific status that the device reports for it.
#[derive(Clone, Copy, Debug, PartialEq, Eq, Structural)]
pub struct BnicStatusError {
    pub status: BnicStatus,
    pub source: BnicFailure,
}

impl BnicStatusError {
    pub fn new(status: BnicStatus, source: BnicFailure) -> (ret: Self)
        ensures
            ret == (BnicStatusError { status, source }),
    {
        BnicStatusError { status, source }
    }
}

/// A refusal, tagged with a status or not.
#[derive(Clone, Copy, Debug, PartialEq, Eq, Structural)]
pub enum BnicError {
    Tagged(BnicStatusError),
    Plain(BnicFailure),
}

pub open spec fn tagged(status: BnicStatus, source: BnicFailure) -> BnicError {
    BnicError::Tagged(BnicStatusError { status, source })
}

impl BnicError {
    /// The status that the refusal is tagged with.
    pub fn status(&self) -> (ret: Option<BnicStatus>)
        ensures
            ret == match *self {
                BnicError::Tagged(err) => Some(err.status),
                BnicError::Plain(_) => None,
            },
    {
        match self {
            BnicError::Tagged(err) => Some(err.status),
            BnicError::Plain(_) => None,
        }
    }
}

/// Configuration of the device.
#[derive(Clone, Copy, Debug, PartialEq, Eq, Structural)]
pub struct BnicConfig {
    /// Adapter link speed in megabits per second.
    pub adapter_link_speed_mbps: u32,
    /// Present the device as a bare-metal physical function.
    pub bm_hostmode: bool,
    /// Expose a read-only capability register block that advertises the device's resource limits.
    pub pf_caps: bool,
}

impl Default for BnicConfig {
    fn default() -> (ret: Self)
        ensures
            ret == (BnicConfig { adapter_link_speed_mbps: 0, bm_hostmode: false, pf_caps: false }),
    {
        BnicConfig { adapter_link_speed_mbps: 0, bm_hostmode: false, pf_caps: false }
    }
}

impl BnicConfig {
    pub open spec fn link_speed(self) -> u32 {
        if self.adapter_link_speed_mbps > 0 {
            self.adapter_link_speed_mbps
        } else {
            MANA_DEFAULT_LINK_SPEED_MBPS
        }
    }

    /// The adapter's effective link speed in Mbps: the configured value, or the device's nominal
    /// line rate when it is left unconfigured (0), which a guest would show as an unknown speed.
    pub fn link_speed_mbps(&self) -> (ret: u32)
        ensures
            ret == self.link_speed(),
            ret > 0,
    {
        if self.adapter_link_speed_mbps > 0 {
            self.adapter_link_speed_mbps
        } else {
            MANA_DEFAULT_LINK_SPEED_MBPS
        }
    }
}

/// A yes, a no, or neither.
#[derive(Clone, Copy, Debug, PartialEq, Eq, Structural)]
pub enum Tristate {
    False,
    True,
    Other,
}

/// A request to configure a vport's receive path.
pub struct RxSteerRequest {
    pub vport: u64,
    pub num_indir_entries: u16,
    /// Where the indirection table begins, counted from the start of the message.
    pub indir_tab_offset: u16,
    pub rx_enable: Tristate,
    pub rss_enable: Tristate,
    pub update_hashkey: u8,
    pub update_indir_tab: u8,
    pub hashkey: [u8; MANA_HASH_KEY_SIZE],
    /// The length of the fixed fields of the message, its header among them.
    pub fixed_len: usize,
    /// What follows the fixed fields.
    pub tail: Vec<u8>,
}

/// A command, decoded.
pub enum BnicRequest {
    QueryDevConfig,
    ConfigVportTx { vport: u64 },
    CreateWqObj {
        wq_type: QueueType,
        vport: u64,
        wq_gdma_region: u64,
        wq_size: u32,
        cq_gdma_region: u64,
        cq_size: u32,
        cq_parent_qid: u32,
    },
    DestroyWqObj { wq_type: QueueType, wq_obj_handle: u64 },
    FenceRq { wq_obj_handle: u64 },
    ConfigVportRx(RxSteerRequest),
    Vtl2MoveFilter,
    Vtl2QueryFilterState { vport: u64 },
    PfCreateVport,
    PfCreateFilter { vport_handle: u64 },
    QueryFilterCap,
    QueryVportConfig { vport_index: u32 },
    QueryStats { requested_statistics: u64 },
    QueryPhyStat { requested_statistics: u64 },
    QueryLinkConfig,
    Vtl2AssignSerialNumber { vport: u64, serial_no: u32 },
    /// A known command whose body is cut short.
    Truncated,
    Unsupported { msg_type: u32 },
}

/// The body of a response. Reserved fields, and fields that are not listed, are zero.
#[derive(Clone, Copy)]
pub enum BnicBody {
    Empty,
    DevConfig {
        /// The function stands alone: it has no paired synthetic partner.
        mana_direct: bool,
        max_num_vports: u16,
        bm_hostmode: u8,
        max_num_eqs: u16,
        adapter_mtu: u16,
        adapter_link_speed_mbps: u32,
    },
    VportTx { tx_vport_offset: u16, short_form_allowed: u8 },
    WqObj { wq_id: u32, cq_id: u32, wq_obj: u64 },
    RxSteer { cqe_coalescing_timeout_ns: u32 },
    FilterState { direction_to_vtl0: u8 },
    PfVport { vport_handle: u64 },
    PfFilter { filter_handle: u64 },
    FilterCap { max_num_filters: u32, max_num_rx_objects: u32 },
    VportConfig {
        max_num_sq: u32,
        max_num_rq: u32,
        num_indirection_ent: u32,
        mac_addr: [u8; 6],
        vport: u64,
    },
    Stats { reported_statistics: u64 },
    PhyStats { reported_statistics: u64 },
    LinkConfig { qos_speed_mbps: u32, qos_unconfigured: u8, link_speed_mbps: u32 },
}

impl BnicBody {
    /// Whether the body is cut to the guest's buffer; the others have to fit.
    pub open spec fn truncates_spec(self) -> bool {
        match self {
            BnicBody::DevConfig { .. }
            | BnicBody::RxSteer { .. }
            | BnicBody::Stats { .. }
            | BnicBody::PhyStats { .. }
            | BnicBody::LinkConfig { .. } => true,
            _ => false,
        }
    }

    #[verifier::when_used_as_spec(truncates_spec)]
    pub fn truncates(self) -> (ret: bool)
        ensures
            ret == self.truncates_spec(),
    {
        match self {
            BnicBody::DevConfig { .. }
            | BnicBody::RxSteer { .. }
            | BnicBody::Stats { .. }
            | BnicBody::PhyStats { .. }
            | BnicBody::LinkConfig { .. } => true,
            _ => false,
        }
    }
}

/// A work-queue object: an associated work queue and completion queue, addressed by the opaque
/// `wq_obj` handle returned to the guest.
#[derive(Clone, Copy, Debug, PartialEq, Eq, Structural)]
pub struct WqObject {
    pub wq_obj: u64,
    pub wq_id: u32,
    pub cq_id: u32,
    /// Set while a receive task for this object is live, through which fences are routed, so that
    /// a fence completes strictly after every receive completion the task has already produced.
    pub fence_live: bool,
}

/// A guest send queue: the queue polled for transmit work and the queue its completions are posted
/// to.
#[derive(Clone, Copy, Debug, PartialEq, Eq, Structural)]
pub struct SqChannel {
    pub sq_id: u32,
    pub sq_cq_id: u32,
}

/// What a vport is built from: its address, and what its endpoint offers.
#[derive(Clone, Copy)]
pub struct VportConfig {
    pub mac_address: [u8; 6],
    /// How many queues the endpoint supports.
    pub max_queues: u16,
    /// Whether the endpoint completes transmits in order.
    pub is_ordered: bool,
}

/// A vport of the network client.
pub struct Vport {
    pub mac_address: [u8; 6],
    pub max_queues: u16,
    /// How many data path tasks run: one per backend queue, none while the receive path is
    /// disabled.
    pub tasks: usize,
    pub tx: Vec<WqObject>,
    pub rx: Vec<WqObject>,
    pub serial_no: u32,
    /// Whether the driver opted into coalescing receive completions. Running tasks observe a
    /// change on their next batch.
    pub cqe_coalescing: bool,
    /// The key under which received frames are hashed; `None` while hashing is off.
    pub rss_key: Option<[u8; MANA_HASH_KEY_SIZE]>,
}

/// What a [`Vport`] holds.
pub struct VportView {
    pub mac_address: [u8; 6],
    pub max_queues: u16,
    pub tasks: nat,
    pub tx: Seq<WqObject>,
    pub rx: Seq<WqObject>,
    pub serial_no: u32,
    pub cqe_coalescing: bool,
    pub rss_key: Option<[u8; MANA_HASH_KEY_SIZE]>,
}

impl View for Vport {
    type V = VportView;

    open spec fn view(&self) -> VportView {
        VportView {
            mac_address: self.mac_address,
            max_queues: self.max_queues,
            tasks: self.tasks as nat,
            tx: self.tx@,
            rx: self.rx@,
            serial_no: self.serial_no,
            cqe_coalescing: self.cqe_coalescing,
            rss_key: self.rss_key,
        }
    }
}

/// How received frames are steered: the hash key, and the index of the receive queue of each
/// bucket.
pub struct RssTable {
    pub key: [u8; MANA_HASH_KEY_SIZE],
    pub table: Vec<u16>,
}

/// The queues that the backend is asked for, and what they are asked to do.
pub struct DatapathPlan {
    pub backend_queues: usize,
    pub rss: Option<RssTable>,
}

/// What a plan asks for.
pub struct PlanView {
    pub backend_queues: nat,
    pub rss: Option<([u8; MANA_HASH_KEY_SIZE], Seq<u16>)>,
}

impl View for DatapathPlan {
    type V = PlanView;

    open spec fn view(&self) -> PlanView {
        PlanView {
            backend_queues: self.backend_queues as nat,
            rss: match self.rss {
                Some(rss) => Some((rss.key, rss.table@)),
                None => None,
            },
        }
    }
}

/// One data path task: the send queues that it drains, the receive queue that it fills, and the
/// key under which it hashes.
pub struct TaskPlan {
    pub sqs: Vec<SqChannel>,
    pub rq_id: u32,
    pub rq_cq_id: u32,
    pub rss_key: Option<[u8; MANA_HASH_KEY_SIZE]>,
}

/// What a task does.
pub struct TaskView {
    pub sqs: Seq<SqChannel>,
    pub rq_id: u32,
    pub rq_cq_id: u32,
    pub rss_key: Option<[u8; MANA_HASH_KEY_SIZE]>,
}

impl View for TaskPlan {
    type V = TaskView;

    open spec fn view(&self) -> TaskView {
        TaskView {
            sqs: self.sqs@,
            rq_id: self.rq_id,
            rq_cq_id: self.rq_cq_id,
            rss_key: self.rss_key,
        }
    }
}

/// The position from `i` on of the first object with a handle; the length of the list if there is
/// none.
pub open spec fn first_from(list: Seq<WqObject>, handle: u64, i: nat) -> nat
    decreases list.len() - i,
{
    if i >= list.len() {
        list.len()
    } else if list[i as int].wq_obj == handle {
        i
    } else {
        first_from(list, handle, i + 1)
    }
}

/// The position of the first object with a handle.
pub open spec fn first_of(list: Seq<WqObject>, handle: u64) -> nat {
    first_from(list, handle, 0)
}

/// The list with every fence sender dropped.
pub open spec fn without_fences(list: Seq<WqObject>) -> Seq<WqObject> {
    list.map_values(|w: WqObject| WqObject { fence_live: false, ..w })
}

/// The list with a fence sender for each of the first `n` objects.
pub open spec fn with_fences(list: Seq<WqObject>, n: nat) -> Seq<WqObject> {
    Seq::new(
        list.len(),
        |i: int|
            if i < n {
                WqObject { fence_live: true, ..list[i] }
            } else {
                list[i]
            },
    )
}

/// The smaller of two lengths.
pub open spec fn shorter(a: nat, b: nat) -> nat {
    if a <= b {
        a
    } else {
        b
    }
}

/// `x` brought into the range from `low` to `high`.
pub open spec fn clamped(x: int, low: int, high: int) -> int {
    if x < low {
        low
    } else if x > high {
        high
    } else {
        x
    }
}

/// What a table of queue handles resolves to from its entry `k` on.
pub open spec fn resolve_from(rx: Seq<WqObject>, bytes: Seq<u8>, count: nat, k: nat) -> Result<
    Seq<u16>,
    BnicFailure,
>
    decreases count - k,
{
    if k >= count {
        Ok(Seq::empty())
    } else if bytes.len() < 8 * k + 8 {
        Err(BnicFailure::TableTruncated)
    } else {
        let idx = first_of(rx, le64_at(bytes, 8 * k as int) as u64);
        if idx >= rx.len() {
            Err(BnicFailure::UnknownRxQueue)
        } else {
            match resolve_from(rx, bytes, count, k + 1) {
                Err(err) => Err(err),
                Ok(rest) => Ok(seq![idx as u16] + rest),
            }
        }
    }
}

/// The send queues from `i` on that fall to one of `step` backend queues, round-robin.
pub open spec fn funnel(tx: Seq<WqObject>, i: nat, n: nat, step: nat) -> Seq<SqChannel>
    decreases
            if i < n {
                n - i
            } else {
                0
            },
{
    if i >= n || step == 0 {
        Seq::empty()
    } else {
        seq![SqChannel { sq_id: tx[i as int].wq_id, sq_cq_id: tx[i as int].cq_id }] + funnel(
            tx,
            i + step,
            n,
            step,
        )
    }
}

impl VportView {
    /// How many queue pairs the guest created.
    pub open spec fn pairs(self) -> nat {
        shorter(self.tx.len(), self.rx.len())
    }

    /// The vport after its data path was torn down.
    pub open spec fn stop(self) -> VportView {
        if self.tasks == 0 {
            self
        } else {
            VportView { tasks: 0, rx: without_fences(self.rx), ..self }
        }
    }

    /// The vport as it was when it was new.
    pub open spec fn shut_down(self) -> VportView {
        VportView {
            tasks: 0,
            tx: Seq::empty(),
            rx: Seq::empty(),
            serial_no: 0,
            cqe_coalescing: false,
            rss_key: None,
            ..self
        }
    }

    /// How many of the backend's queues serve the guest's pairs: as many as there are pairs and
    /// the backend supports, and at least one.
    pub open spec fn backend_queues(self) -> nat {
        clamped(self.max_queues as int, 1, self.pairs() as int) as nat
    }

    /// What the data path is to be started with.
    pub open spec fn plan(self, req: RxSteerRequest) -> Result<PlanView, BnicFailure> {
        if self.pairs() == 0 {
            Err(BnicFailure::QueuesNotConfigured)
        } else if req.update_indir_tab == 0 || req.num_indir_entries == 0 {
            Ok(PlanView { backend_queues: self.backend_queues(), rss: None })
        } else if req.indir_tab_offset < req.fixed_len {
            Err(BnicFailure::TableOverlapsRequest)
        } else if req.tail@.len() < req.indir_tab_offset - req.fixed_len {
            Err(BnicFailure::TableBeyondRequest)
        } else {
            match resolve_from(
                self.rx,
                req.tail@.skip(req.indir_tab_offset - req.fixed_len),
                req.num_indir_entries as nat,
                0,
            ) {
                Err(err) => Err(err),
                Ok(table) => Ok(
                    PlanView {
                        backend_queues: self.backend_queues(),
                        rss: Some((req.hashkey, table)),
                    },
                ),
            }
        }
    }

    /// The key under which frames are hashed once the data path is started: none where hashing is
    /// turned off, the supplied one where it is turned on with a key, and otherwise the one there
    /// was.
    pub open spec fn next_rss_key(self, req: RxSteerRequest) -> Option<[u8; MANA_HASH_KEY_SIZE]> {
        match req.rss_enable {
            Tristate::False => None,
            Tristate::True if req.update_hashkey != 0 => Some(req.hashkey),
            _ => self.rss_key,
        }
    }

    /// The tasks of the data path: each drains the send queues that fall to its backend queue, and
    /// fills the receive queue with the same index.
    pub open spec fn task_plans(self, backend_queues: nat) -> Seq<TaskView> {
        Seq::new(
            backend_queues,
            |j: int|
                TaskView {
                    sqs: funnel(self.tx, j as nat, self.pairs(), backend_queues),
                    rq_id: self.rx[j].wq_id,
                    rq_cq_id: self.rx[j].cq_id,
                    rss_key: self.rss_key,
                },
        )
    }

    /// The vport while that many tasks run.
    pub open spec fn started(self, backend_queues: nat) -> VportView {
        VportView { tasks: backend_queues, rx: with_fences(self.rx, backend_queues), ..self }
    }
}

/// A vport as it is when it is new.
pub open spec fn new_vport(config: VportConfig) -> VportView {
    VportView {
        mac_address: config.mac_address,
        max_queues: config.max_queues,
        tasks: 0,
        tx: Seq::empty(),
        rx: Seq::empty(),
        serial_no: 0,
        cqe_coalescing: false,
        rss_key: None,
    }
}

fn find_wq_obj(list: &Vec<WqObject>, handle: u64) -> (ret: usize)
    ensures
        ret == first_of(list@, handle),
        ret <= list@.len(),
{
    let mut i: usize = 0;
    while i < list.len()
        invariant
            i <= list@.len(),
            first_of(list@, handle) == first_from(list@, handle, i as nat),
        decreases list@.len() - i,
    {
        if list[i].wq_obj == handle {
            return i;
        }
        i = i + 1;
    }
    i
}

impl Vport {
    pub fn new(config: VportConfig) -> (ret: Self)
        ensures
            ret@ == new_vport(config),
    {
        Vport {
            mac_address: config.mac_address,
            max_queues: config.max_queues,
            tasks: 0,
            tx: Vec::new(),
            rx: Vec::new(),
            serial_no: 0,
            cqe_coalescing: false,
            rss_key: None,
        }
    }

    /// Returns the vport, whose tasks are gone, to its initial state. A driver that does not
    /// negotiate coalescing or hashing must not find them on.
    fn forget(&mut self)
        requires
            old(self)@.tasks == 0,
        ensures
            final(self)@ == old(self)@.shut_down(),
    {
        self.tx = Vec::new();
        self.rx = Vec::new();
        self.serial_no = 0;
        self.cqe_coalescing = false;
        self.rss_key = None;
    }

    fn drop_fences(&mut self)
        ensures
            final(self)@ == (VportView { rx: without_fences(old(self)@.rx), ..old(self)@ }),
    {
        let mut i: usize = 0;
        while i < self.rx.len()
            invariant
                i <= self.rx@.len(),
                self.rx@.len() == old(self).rx@.len(),
                forall|k: int|
                    0 <= k < self.rx@.len() ==> #[trigger] self.rx@[k] == if k < i {
                        WqObject { fence_live: false, ..old(self).rx@[k] }
                    } else {
                        old(self).rx@[k]
                    },
                self@ == (VportView { rx: self.rx@, ..old(self)@ }),
            decreases self.rx@.len() - i,
        {
            let mut w = self.rx[i];
            w.fence_live = false;
            self.rx.set(i, w);
            i = i + 1;
        }
        assert(self.rx@ =~= without_fences(old(self).rx@));
    }

    /// Tears down every data path task. Tells whether there was any, in which case the backend
    /// endpoint is to be stopped once they are gone: its queues are owned by the tasks.
    ///
    /// With the receive tasks gone, a later fence has nothing in flight to order against.
    pub fn stop_datapath(&mut self) -> (ret: bool)
        ensures
            ret == (old(self)@.tasks > 0),
            final(self)@ == old(self)@.stop(),
    {
        if self.tasks == 0 {
            return false;
        }
        self.tasks = 0;
        self.drop_fences();
        true
    }

    /// Resolves the entries of an indirection table into indices of receive queues. Each entry is
    /// a 64-bit handle.
    fn resolve_table(&self, bytes: &[u8], start: usize, count: u16) -> (ret: Result<
        Vec<u16>,
        BnicFailure,
    >)
        requires
            start <= bytes@.len(),
        ensures
            match ret {
                Ok(table) => resolve_from(
                    self@.rx,
                    bytes@.skip(start as int),
                    count as nat,
                    0,
                ) == Ok::<Seq<u16>, BnicFailure>(table@),
                Err(err) => resolve_from(
                    self@.rx,
                    bytes@.skip(start as int),
                    count as nat,
                    0,
                ) == Err::<Seq<u16>, BnicFailure>(err),
            },
    {
        let ghost part = bytes@.skip(start as int);
        let mut table: Vec<u16> = Vec::new();
        let mut k: u16 = 0;
        while k < count
            invariant
                k <= count,
                start <= bytes@.len(),
                part == bytes@.skip(start as int),
                match resolve_from(self@.rx, part, count as nat, k as nat) {
                    Ok(rest) => resolve_from(self@.rx, part, count as nat, 0) == Ok::<
                        Seq<u16>,
                        BnicFailure,
                    >(table@ + rest),
                    Err(err) => resolve_from(self@.rx, part, count as nat, 0) == Err::<
                        Seq<u16>,
                        BnicFailure,
                    >(err),
                },
            decreases count - k,
        {
            let done: usize = 8 * k as usize;
            if bytes.len() - start < done + 8 {
                return Err(BnicFailure::TableTruncated);
            }
            let handle: u64 = get_le64(bytes, start + done);
            assert(le64_at(part, done as int) == le64_at(bytes@, start + done));
            let idx: usize = find_wq_obj(&self.rx, handle);
            if idx >= self.rx.len() {
                return Err(BnicFailure::UnknownRxQueue);
            }
            let ghost before = table@;
            table.push(idx as u16);
            k = k + 1;
            proof {
                if let Ok(rest) = resolve_from(self@.rx, part, count as nat, k as nat) {
                    assert(before + (seq![idx as u16] + rest) =~= table@ + rest);
                }
            }
        }
        assert(table@ + Seq::<u16>::empty() =~= table@);
        Ok(table)
    }

    /// Works out what the data path is to be started with.
    ///
    /// The guest may create more queue pairs than the backend can service: only as many backend
    /// queues are asked for as it supports, and the guest's queue pairs are funneled onto them. An
    /// indirection table is located at its declared offset from the start of the message, not
    /// necessarily right behind the fixed fields.
    pub fn plan_datapath(&self, req: &RxSteerRequest) -> (ret: Result<DatapathPlan, BnicFailure>)
        ensures
            match ret {
                Ok(plan) => self@.plan(*req) == Ok::<PlanView, BnicFailure>(plan@),
                Err(err) => self@.plan(*req) == Err::<PlanView, BnicFailure>(err),
            },
    {
        let n: usize = if self.tx.len() <= self.rx.len() {
            self.tx.len()
        } else {
            self.rx.len()
        };
        if n == 0 {
            return Err(BnicFailure::QueuesNotConfigured);
        }
        let max_queues: usize = self.max_queues as usize;
        let backend_queues: usize = if max_queues < 1 {
            1
        } else if max_queues > n {
            n
        } else {
            max_queues
        };
        if req.update_indir_tab == 0 || req.num_indir_entries == 0 {
            return Ok(DatapathPlan { backend_queues, rss: None });
        }
        let offset: usize = req.indir_tab_offset as usize;
        if offset < req.fixed_len {
            return Err(BnicFailure::TableOverlapsRequest);
        }
        let skip: usize = offset - req.fixed_len;
        if req.tail.len() < skip {
            return Err(BnicFailure::TableBeyondRequest);
        }
        match self.resolve_table(req.tail.as_slice(), skip, req.num_indir_entries) {
            Ok(table) => Ok(
                DatapathPlan { backend_queues, rss: Some(RssTable { key: req.hashkey, table }) },
            ),
            Err(err) => Err(err),
        }
    }

    /// The send queues that fall to the backend queue `j`.
    fn funnel_queues(&self, j: usize, n: usize, step: usize) -> (ret: Vec<SqChannel>)
        requires
            step > 0,
            n <= self.tx@.len(),
        ensures
            ret@ == funnel(self@.tx, j as nat, n as nat, step as nat),
    {
        let mut sqs: Vec<SqChannel> = Vec::new();
        let mut i: usize = j;
        while i < n
            invariant
                step > 0,
                n <= self.tx@.len(),
                funnel(self@.tx, j as nat, n as nat, step as nat) == sqs@ + funnel(
                    self@.tx,
                    i as nat,
                    n as nat,
                    step as nat,
                ),
            decreases n - i,
        {
            let ghost before = sqs@;
            let channel = SqChannel { sq_id: self.tx[i].wq_id, sq_cq_id: self.tx[i].cq_id };
            sqs.push(channel);
            proof {
                let rest = funnel(self@.tx, (i + step) as nat, n as nat, step as nat);
                assert(before + (seq![channel] + rest) =~= sqs@ + rest);
            }
            if step >= n - i {
                assert(sqs@ + Seq::<SqChannel>::empty() =~= sqs@);
                return sqs;
            }
            i = i + step;
        }
        assert(sqs@ + Seq::<SqChannel>::empty() =~= sqs@);
        sqs
    }

    /// Starts the data path on the queues that the backend provided (`None` if it provided none).
    ///
    /// Every guest send queue is funneled through a backend queue, round-robin, so all of them
    /// reach the backend. Each backend queue delivers to a single guest receive queue; when the
    /// guest created more pairs than the backend can service, the surplus receive queues stay
    /// idle, and only the others get a fence sender.
    pub fn start_datapath(&mut self, plan: &DatapathPlan, provided: Option<usize>) -> (ret: Result<
        Vec<TaskPlan>,
        BnicFailure,
    >)
        requires
            0 < plan@.backend_queues <= old(self)@.pairs(),
        ensures
            match ret {
                Ok(tasks) => {
                    &&& provided == Some(plan.backend_queues)
                    &&& final(self)@ == old(self)@.started(plan@.backend_queues)
                    &&& tasks@.map_values(|task: TaskPlan| task@) == old(self)@.task_plans(
                        plan@.backend_queues,
                    )
                },
                Err(err) => {
                    &&& final(self)@ == old(self)@
                    &&& match provided {
                        None => err == BnicFailure::Backend,
                        Some(n) => n != plan.backend_queues && err
                            == BnicFailure::BackendQueueCount,
                    }
                },
            },
    {
        match provided {
            None => {
                return Err(BnicFailure::Backend);
            },
            Some(count) => {
                if count != plan.backend_queues {
                    return Err(BnicFailure::BackendQueueCount);
                }
            },
        }
        let n: usize = if self.tx.len() <= self.rx.len() {
            self.tx.len()
        } else {
            self.rx.len()
        };
        let mut tasks: Vec<TaskPlan> = Vec::new();
        let mut j: usize = 0;
        while j < plan.backend_queues
            invariant
                j <= plan.backend_queues,
                0 < plan.backend_queues <= n,
                n == old(self)@.pairs(),
                self.tx@ == old(self).tx@,
                self.rx@.len() == old(self).rx@.len(),
                forall|k: int|
                    0 <= k < self.rx@.len() ==> #[trigger] self.rx@[k] == if k < j {
                        WqObject { fence_live: true, ..old(self).rx@[k] }
                    } else {
                        old(self).rx@[k]
                    },
                self@ == (VportView { rx: self.rx@, ..old(self)@ }),
                tasks@.len() == j,
                forall|k: int|
                    0 <= k < j ==> (#[trigger] tasks@[k])@ == old(self)@.task_plans(
                        plan@.backend_queues,
                    )[k],
            decreases plan.backend_queues - j,
        {
            let sqs = self.funnel_queues(j, n, plan.backend_queues);
            let mut w = self.rx[j];
            tasks.push(
                TaskPlan { sqs, rq_id: w.wq_id, rq_cq_id: w.cq_id, rss_key: self.rss_key },
            );
            w.fence_live = true;
            self.rx.set(j, w);
            j = j + 1;
        }
        self.tasks = plan.backend_queues;
        assert(self.rx@ =~= with_fences(old(self).rx@, plan@.backend_queues));
        assert(tasks@.map_values(|task: TaskPlan| task@) =~= old(self)@.task_plans(
            plan@.backend_queues,
        ));
        Ok(tasks)
    }
}

/// The network client.
pub struct BasicNic {
    pub vports: Vec<Vport>,
    pub config: BnicConfig,
    /// The handle of the next work-queue object. Each object gets a distinct, opaque handle so
    /// the guest can reference individual queues (notably in the indirection table) and destroy
    /// them independently.
    pub next_wq_obj: u64,
    /// The handle of the next filter. No filter table is kept (every vport receives all traffic
    /// that the backend delivers), but a privileged client expects distinct handles.
    pub next_filter_handle: u64,
}

/// What a [`BasicNic`] holds.
pub struct NicView {
    pub vports: Seq<VportView>,
    pub config: BnicConfig,
    pub next_wq_obj: u64,
    pub next_filter_handle: u64,
}

impl View for BasicNic {
    type V = NicView;

    open spec fn view(&self) -> NicView {
        NicView {
            vports: self.vports@.map_values(|vport: Vport| vport@),
            config: self.config,
            next_wq_obj: self.next_wq_obj,
            next_filter_handle: self.next_filter_handle,
        }
    }
}

/// Two queues to be allocated for a work-queue object, the work queue first.
pub struct WqObjAlloc {
    pub vport: usize,
    pub is_send: bool,
    pub wq_gdma_region: u64,
    pub wq_region: DmaRegion,
    pub cq_gdma_region: u64,
    pub cq_region: DmaRegion,
    pub cq_parent_qid: u32,
}

/// What two queues to be allocated look like.
pub struct AllocView {
    pub vport: usize,
    pub is_send: bool,
    pub wq_gdma_region: u64,
    pub wq_region: RegionView,
    pub cq_gdma_region: u64,
    pub cq_region: RegionView,
    pub cq_parent_qid: u32,
}

impl View for WqObjAlloc {
    type V = AllocView;

    open spec fn view(&self) -> AllocView {
        AllocView {
            vport: self.vport,
            is_send: self.is_send,
            wq_gdma_region: self.wq_gdma_region,
            wq_region: self.wq_region@,
            cq_gdma_region: self.cq_gdma_region,
            cq_region: self.cq_region@,
            cq_parent_qid: self.cq_parent_qid,
        }
    }
}

/// Whether a data path is to be started.
pub enum StartPlan {
    NotNeeded,
    Failed(BnicFailure),
    Start(DatapathPlan),
}

/// Whether, and with what, a data path is to be started.
pub enum StartView {
    NotNeeded,
    Failed(BnicFailure),
    Start(PlanView),
}

impl View for StartPlan {
    type V = StartView;

    open spec fn view(&self) -> StartView {
        match self {
            StartPlan::NotNeeded => StartView::NotNeeded,
            StartPlan::Failed(err) => StartView::Failed(*err),
            StartPlan::Start(plan) => StartView::Start(plan@),
        }
    }
}

/// What a receive configuration leaves to do, in this order: stop the endpoint, start the data
/// path, post the link event, write the response. What fails ends it.
pub struct RxSteering {
    pub vport: usize,
    pub stop_endpoint: bool,
    pub start: StartPlan,
    pub link: Option<EqPost>,
    pub body: BnicBody,
}

/// What a command leaves to do.
pub enum BnicStep {
    /// Write the response body.
    Reply(BnicBody),
    /// Allocate two queues, then write a response that names them.
    AllocQueues(WqObjAlloc),
    /// Free two queues; the response has no body.
    FreeQueues { is_send: bool, wq_id: u32, cq_id: u32 },
    /// Route a fence to the task of the receive queue at `route` (vport, position), or, where
    /// there is none or it has gone, post the fence completion inline.
    Fence { cq_id: u32, wq_id: u32, route: Option<(usize, usize)> },
    Steer(RxSteering),
}

/// What a command asks for.
pub enum BnicStepView {
    Reply(BnicBody),
    AllocQueues(AllocView),
    FreeQueues { is_send: bool, wq_id: u32, cq_id: u32 },
    Fence { cq_id: u32, wq_id: u32, route: Option<(usize, usize)> },
    Steer {
        vport: usize,
        stop_endpoint: bool,
        start: StartView,
        link: Option<PostView>,
        body: BnicBody,
    },
}

impl View for BnicStep {
    type V = BnicStepView;

    open spec fn view(&self) -> BnicStepView {
        match self {
            BnicStep::Reply(body) => BnicStepView::Reply(*body),
            BnicStep::AllocQueues(alloc) => BnicStepView::AllocQueues(alloc@),
            BnicStep::FreeQueues { is_send, wq_id, cq_id } => BnicStepView::FreeQueues {
                is_send: *is_send,
                wq_id: *wq_id,
                cq_id: *cq_id,
            },
            BnicStep::Fence { cq_id, wq_id, route } => BnicStepView::Fence {
                cq_id: *cq_id,
                wq_id: *wq_id,
                route: *route,
            },
            BnicStep::Steer(steering) => BnicStepView::Steer {
                vport: steering.vport,
                stop_endpoint: steering.stop_endpoint,
                start: steering.start@,
                link: match steering.link {
                    Some(post) => Some(post@),
                    None => None,
                },
                body: steering.body,
            },
        }
    }
}

/// The direction of a work queue's kind; `None` for a kind that is no work queue.
pub open spec fn wq_direction(wq_type: QueueType) -> Option<bool> {
    match wq_type {
        QueueType::Rq => Some(false),
        QueueType::Sq => Some(true),
        _ => None,
    }
}

/// The work-queue objects of a vport in one direction.
pub open spec fn objects(vport: VportView, is_send: bool) -> Seq<WqObject> {
    if is_send {
        vport.tx
    } else {
        vport.rx
    }
}

pub open spec fn with_objects(vport: VportView, is_send: bool, list: Seq<WqObject>) -> VportView {
    if is_send {
        VportView { tx: list, ..vport }
    } else {
        VportView { rx: list, ..vport }
    }
}

/// The first vport from `i` on that has an object with a handle; the number of vports if none has.
pub open spec fn first_vport_from(
    vports: Seq<VportView>,
    is_send: bool,
    handle: u64,
    i: nat,
) -> nat
    decreases vports.len() - i,
{
    if i >= vports.len() {
        vports.len()
    } else if first_of(objects(vports[i as int], is_send), handle) < objects(
        vports[i as int],
        is_send,
    ).len() {
        i
    } else {
        first_vport_from(vports, is_send, handle, i + 1)
    }
}

pub open spec fn link_event(hw: HwView, vport: u64, connected: bool) -> PostView {
    PostView {
        eq_id: hw.hwc_eq_id,
        event: crate::hwc::EventView::LinkStatus {
            vport: crate::hwc::low_three_bytes(vport as u32),
            connected,
        },
    }
}

impl NicView {
    pub open spec fn with_vport(self, i: int, vport: VportView) -> NicView {
        NicView { vports: self.vports.update(i, vport), ..self }
    }

    /// Creating a work-queue object: both regions have to be whole and of the declared sizes.
    pub open spec fn create_wq_obj(
        self,
        hw: HwView,
        wq_type: QueueType,
        vport: u64,
        wq_gdma_region: u64,
        wq_size: u32,
        cq_gdma_region: u64,
        cq_size: u32,
        cq_parent_qid: u32,
    ) -> Result<BnicStepView, BnicError> {
        match wq_direction(wq_type) {
            None => Err(tagged(BnicStatus::UnsupportedQueueType, BnicFailure::UnsupportedQueueType)),
            Some(is_send) => if vport >= self.vports.len() {
                Err(tagged(BnicStatus::InvalidVportHandle, BnicFailure::InvalidVport))
            } else {
                match (hw.region(wq_gdma_region, wq_size), hw.region(cq_gdma_region, cq_size)) {
                    (Err(err), _) => Err(BnicError::Plain(BnicFailure::Region(err))),
                    (_, Err(err)) => Err(BnicError::Plain(BnicFailure::Region(err))),
                    (Ok(wq_region), Ok(cq_region)) => Ok(
                        BnicStepView::AllocQueues(
                            AllocView {
                                vport: vport as usize,
                                is_send,
                                wq_gdma_region,
                                wq_region,
                                cq_gdma_region,
                                cq_region,
                                cq_parent_qid,
                            },
                        ),
                    ),
                }
            },
        }
    }

    /// Destroying a work-queue object, found by its handle across all vports. An object of a vport
    /// whose data path runs is still in use.
    pub open spec fn destroy_wq_obj(self, wq_type: QueueType, handle: u64) -> (
        NicView,
        Result<BnicStepView, BnicError>,
    ) {
        match wq_direction(wq_type) {
            None => (
                self,
                Err(tagged(BnicStatus::InvalidWqType, BnicFailure::UnsupportedQueueType)),
            ),
            Some(is_send) => {
                let i = first_vport_from(self.vports, is_send, handle, 0) as int;
                if i >= self.vports.len() {
                    (
                        self,
                        Err(tagged(BnicStatus::InvalidWqHandle, BnicFailure::QueueDoesNotExist)),
                    )
                } else if self.vports[i].tasks > 0 {
                    (self, Err(BnicError::Plain(BnicFailure::QueueStillInUse)))
                } else {
                    let list = objects(self.vports[i], is_send);
                    let pos = first_of(list, handle) as int;
                    (
                        self.with_vport(i, with_objects(self.vports[i], is_send, list.remove(pos))),
                        Ok(
                            BnicStepView::FreeQueues {
                                is_send,
                                wq_id: list[pos].wq_id,
                                cq_id: list[pos].cq_id,
                            },
                        ),
                    )
                }
            },
        }
    }

    /// Fencing a receive queue.
    pub open spec fn fence_rq(self, handle: u64) -> Result<BnicStepView, BnicError> {
        let i = first_vport_from(self.vports, false, handle, 0) as int;
        if i >= self.vports.len() {
            Err(tagged(BnicStatus::InvalidWqHandle, BnicFailure::QueueDoesNotExist))
        } else {
            let pos = first_of(self.vports[i].rx, handle) as int;
            let rx = self.vports[i].rx[pos];
            Ok(
                BnicStepView::Fence {
                    cq_id: rx.cq_id,
                    wq_id: rx.wq_id,
                    route: if rx.fence_live {
                        Some((i as usize, pos as usize))
                    } else {
                        None
                    },
                },
            )
        }
    }

    /// Configuring a vport's receive path.
    pub open spec fn config_rx(self, hw: HwView, msg_version: u16, req: RxSteerRequest) -> (
        NicView,
        Result<BnicStepView, BnicError>,
    ) {
        let is_v2 = msg_version >= GDMA_MESSAGE_V2;
        let negotiates = is_v2 && req.rx_enable != Tristate::False;
        if req.vport >= self.vports.len() {
            (self, Err(tagged(BnicStatus::InvalidVportHandle, BnicFailure::InvalidVport)))
        } else if negotiates && req.tail@.len() == 0 {
            (self, Err(BnicError::Plain(BnicFailure::CoalescingByte)))
        } else {
            let before = self.vports[req.vport as int];
            let vport = if negotiates {
                VportView { cqe_coalescing: req.tail@[0] != 0, ..before }
            } else {
                before
            };
            let body = if is_v2 {
                BnicBody::RxSteer { cqe_coalescing_timeout_ns: MANA_RX_CQE_COALESCING_TIMEOUT_NS }
            } else {
                BnicBody::Empty
            };
            let start = match vport.plan(req) {
                Ok(plan) => StartView::Start(plan),
                Err(err) => StartView::Failed(err),
            };
            let restart = vport.tasks > 0 && (req.update_indir_tab != 0 || req.update_hashkey != 0);
            let (after, stop_endpoint, start, link) = match req.rx_enable {
                // The guest disabled receive: the port goes down.
                Tristate::False => (
                    vport.stop(),
                    vport.tasks > 0,
                    StartView::NotNeeded,
                    Some(link_event(hw, req.vport, false)),
                ),
                // The port comes up, once the data path has started.
                Tristate::True if vport.tasks == 0 => (
                    VportView { rss_key: vport.next_rss_key(req), ..vport },
                    false,
                    start,
                    Some(link_event(hw, req.vport, true)),
                ),
                // A new table or key on a running port: the data path is cycled, and the link
                // stays as it is. Without either, the running data path is left alone.
                _ => if restart {
                    (
                        VportView { rss_key: vport.next_rss_key(req), ..vport.stop() },
                        true,
                        start,
                        None,
                    )
                } else {
                    (vport, false, StartView::NotNeeded, None)
                },
            };
            (
                self.with_vport(req.vport as int, after),
                Ok(
                    BnicStepView::Steer {
                        vport: req.vport as usize,
                        stop_endpoint,
                        start,
                        link,
                        body,
                    },
                ),
            )
        }
    }

    /// The outcome of a command: the state after it, and what is left to do or the reason for
    /// refusing it.
    pub open spec fn handle(self, hw: HwView, msg_version: u16, req: BnicRequest) -> (
        NicView,
        Result<BnicStepView, BnicError>,
    ) {
        match req {
            BnicRequest::QueryDevConfig => (
                self,
                Ok(
                    BnicStepView::Reply(
                        BnicBody::DevConfig {
                            mana_direct: true,
                            max_num_vports: self.vports.len() as u16,
                            bm_hostmode: if self.config.bm_hostmode {
                                1
                            } else {
                                0
                            },
                            max_num_eqs: 64,
                            adapter_mtu: MANA_DEFAULT_ADAPTER_MTU,
                            adapter_link_speed_mbps: self.config.adapter_link_speed_mbps,
                        },
                    ),
                ),
            ),
            BnicRequest::ConfigVportTx { vport } => (
                self,
                if vport >= self.vports.len() {
                    Err(tagged(BnicStatus::InvalidVportHandle, BnicFailure::InvalidVport))
                } else {
                    Ok(
                        BnicStepView::Reply(
                            BnicBody::VportTx { tx_vport_offset: 0, short_form_allowed: 1 },
                        ),
                    )
                },
            ),
            BnicRequest::CreateWqObj {
                wq_type,
                vport,
                wq_gdma_region,
                wq_size,
                cq_gdma_region,
                cq_size,
                cq_parent_qid,
            } => (
                self,
                self.create_wq_obj(
                    hw,
                    wq_type,
                    vport,
                    wq_gdma_region,
                    wq_size,
                    cq_gdma_region,
                    cq_size,
                    cq_parent_qid,
                ),
            ),
            BnicRequest::DestroyWqObj { wq_type, wq_obj_handle } => self.destroy_wq_obj(
                wq_type,
                wq_obj_handle,
            ),
            BnicRequest::FenceRq { wq_obj_handle } => (self, self.fence_rq(wq_obj_handle)),
            BnicRequest::ConfigVportRx(steer) => self.config_rx(hw, msg_version, steer),
            BnicRequest::Vtl2MoveFilter => (self, Err(BnicError::Plain(BnicFailure::MoveFilter))),
            BnicRequest::Vtl2QueryFilterState { vport } => (
                self,
                if vport >= self.vports.len() {
                    Err(BnicError::Plain(BnicFailure::InvalidVport))
                } else {
                    Ok(BnicStepView::Reply(BnicBody::FilterState { direction_to_vtl0: 0 }))
                },
            ),
            BnicRequest::PfCreateVport => (
                self,
                Ok(BnicStepView::Reply(BnicBody::PfVport { vport_handle: 0 })),
            ),
            BnicRequest::PfCreateFilter { vport_handle } => if vport_handle >= self.vports.len() {
                (self, Err(tagged(BnicStatus::InvalidVportHandle, BnicFailure::InvalidVport)))
            } else {
                (
                    NicView {
                        next_filter_handle: (self.next_filter_handle + 1) as u64,
                        ..self
                    },
                    Ok(
                        BnicStepView::Reply(
                            BnicBody::PfFilter { filter_handle: self.next_filter_handle },
                        ),
                    ),
                )
            },
            BnicRequest::QueryFilterCap => (
                self,
                Ok(
                    BnicStepView::Reply(
                        BnicBody::FilterCap { max_num_filters: 1, max_num_rx_objects: 64 },
                    ),
                ),
            ),
            BnicRequest::QueryVportConfig { vport_index } => (
                self,
                if vport_index >= self.vports.len() {
                    Err(tagged(BnicStatus::InvalidVportIndex, BnicFailure::InvalidVport))
                } else {
                    let vport = self.vports[vport_index as int];
                    let max_queues = clamped(
                        vport.max_queues as int,
                        1,
                        MANA_MAX_QUEUES_PER_VPORT as int,
                    ) as u32;
                    Ok(
                        BnicStepView::Reply(
                            BnicBody::VportConfig {
                                max_num_sq: max_queues,
                                max_num_rq: max_queues,
                                num_indirection_ent: MANA_INDIRECTION_TABLE_SIZE,
                                mac_addr: vport.mac_address,
                                vport: vport_index as u64,
                            },
                        ),
                    )
                },
            ),
            BnicRequest::QueryStats { requested_statistics } => (
                self,
                Ok(
                    BnicStepView::Reply(
                        BnicBody::Stats { reported_statistics: requested_statistics },
                    ),
                ),
            ),
            BnicRequest::QueryPhyStat { requested_statistics } => (
                self,
                Ok(
                    BnicStepView::Reply(
                        BnicBody::PhyStats { reported_statistics: requested_statistics },
                    ),
                ),
            ),
            BnicRequest::QueryLinkConfig => (
                self,
                Ok(
                    BnicStepView::Reply(
                        BnicBody::LinkConfig {
                            qos_speed_mbps: self.config.link_speed(),
                            qos_unconfigured: 0,
                            link_speed_mbps: self.config.link_speed(),
                        },
                    ),
                ),
            ),
            BnicRequest::Vtl2AssignSerialNumber { vport, serial_no } => if vport
                >= self.vports.len() {
                (self, Err(BnicError::Plain(BnicFailure::InvalidVport)))
            } else {
                (
                    self.with_vport(
                        vport as int,
                        VportView { serial_no, ..self.vports[vport as int] },
                    ),
                    Ok(BnicStepView::Reply(BnicBody::Empty)),
                )
            },
            BnicRequest::Truncated => (self, Err(BnicError::Plain(BnicFailure::Truncated))),
            BnicRequest::Unsupported { msg_type } => (
                self,
                Err(tagged(BnicStatus::CommandUnsupported, BnicFailure::Unsupported(msg_type))),
            ),
        }
    }

    /// Adding a work-queue object over two queues that were allocated.
    pub open spec fn add_wq_obj(self, vport: usize, is_send: bool, wq_id: u32, cq_id: u32) -> NicView {
        let before = self.vports[vport as int];
        let list = objects(before, is_send).push(
            WqObject { wq_obj: self.next_wq_obj, wq_id, cq_id, fence_live: false },
        );
        NicView {
            next_wq_obj: (self.next_wq_obj + 1) as u64,
            ..self.with_vport(vport as int, with_objects(before, is_send, list))
        }
    }

    pub open spec fn shut_down(self) -> NicView {
        NicView { vports: self.vports.map_values(|vport: VportView| vport.shut_down()), ..self }
    }

    /// Every object's handle was given out by this client.
    pub open spec fn handles_given_out(self) -> bool {
        forall|i: int, is_send: bool, k: int|
            0 <= i < self.vports.len() && 0 <= k < objects(self.vports[i], is_send).len() ==> 0 < (
            #[trigger] objects(self.vports[i], is_send)[k]).wq_obj < self.next_wq_obj
    }
}

/// Whether a step, or the reason for a refusal, is the one expected.
pub open spec fn bnic_outcome_is(
    ret: Result<BnicStep, BnicError>,
    expected: Result<BnicStepView, BnicError>,
) -> bool {
    match ret {
        Ok(step) => expected == Ok::<BnicStepView, BnicError>(step@),
        Err(err) => expected == Err::<BnicStepView, BnicError>(err),
    }
}

/// A client with new vports, before any handle was given out.
pub open spec fn new_nic(vports: Seq<VportConfig>, config: BnicConfig) -> NicView {
    NicView {
        vports: vports.map_values(|vport: VportConfig| new_vport(vport)),
        config,
        next_wq_obj: 1,
        next_filter_handle: 1,
    }
}

fn direction_of(wq_type: QueueType) -> (ret: Option<bool>)
    ensures
        ret == wq_direction(wq_type),
{
    match wq_type {
        QueueType::Rq => Some(false),
        QueueType::Sq => Some(true),
        _ => None,
    }
}

impl BasicNic {
    /// A client with the given vports.
    pub fn new(vports: Vec<VportConfig>, config: BnicConfig) -> (ret: Self)
        requires
            vports@.len() > 0,
            forall|i: int| 0 <= i < vports@.len() ==> (#[trigger] vports@[i]).is_ordered,
        ensures
            ret@ == new_nic(vports@, config),
            ret@.handles_given_out(),
    {
        let mut made: Vec<Vport> = Vec::new();
        let mut i: usize = 0;
        while i < vports.len()
            invariant
                i <= vports@.len(),
                made@.len() == i,
                forall|k: int|
                    0 <= k < i ==> (#[trigger] made@[k])@ == new_vport(vports@[k]),
            decreases vports@.len() - i,
        {
            made.push(Vport::new(vports[i]));
            i = i + 1;
        }
        let ret = BasicNic { vports: made, config, next_wq_obj: 1, next_filter_handle: 1 };
        assert(ret@.vports =~= new_nic(vports@, config).vports);
        ret
    }

    /// The first vport that has an object with a handle, and the object's position there.
    fn find_object(&self, is_send: bool, handle: u64) -> (ret: Option<(usize, usize)>)
        ensures
            match ret {
                Some((i, pos)) => {
                    &&& i == first_vport_from(self@.vports, is_send, handle, 0)
                    &&& i < self@.vports.len()
                    &&& pos == first_of(objects(self@.vports[i as int], is_send), handle)
                    &&& pos < objects(self@.vports[i as int], is_send).len()
                },
                None => first_vport_from(self@.vports, is_send, handle, 0) == self@.vports.len(),
            },
    {
        let mut i: usize = 0;
        while i < self.vports.len()
            invariant
                i <= self.vports@.len(),
                first_vport_from(self@.vports, is_send, handle, 0) == first_vport_from(
                    self@.vports,
                    is_send,
                    handle,
                    i as nat,
                ),
            decreases self.vports@.len() - i,
        {
            let list = if is_send {
                &self.vports[i].tx
            } else {
                &self.vports[i].rx
            };
            let pos: usize = find_wq_obj(list, handle);
            assert(self@.vports[i as int] == self.vports@[i as int]@);
            if pos < list.len() {
                return Some((i, pos));
            }
            i = i + 1;
        }
        None
    }

    fn create_wq_obj(
        &self,
        state: &HwState,
        wq_type: QueueType,
        vport: u64,
        wq_gdma_region: u64,
        wq_size: u32,
        cq_gdma_region: u64,
        cq_size: u32,
        cq_parent_qid: u32,
    ) -> (ret: Result<BnicStep, BnicError>)
        requires
            state.wf(),
        ensures
            bnic_outcome_is(
                ret,
                self@.create_wq_obj(
                    state@,
                    wq_type,
                    vport,
                    wq_gdma_region,
                    wq_size,
                    cq_gdma_region,
                    cq_size,
                    cq_parent_qid,
                ),
            ),
    {
        let is_send = match direction_of(wq_type) {
            Some(is_send) => is_send,
            None => {
                return Err(
                    BnicError::Tagged(
                        BnicStatusError::new(
                            BnicStatus::UnsupportedQueueType,
                            BnicFailure::UnsupportedQueueType,
                        ),
                    ),
                );
            },
        };
        if vport >= self.vports.len() as u64 {
            return Err(
                BnicError::Tagged(
                    BnicStatusError::new(BnicStatus::InvalidVportHandle, BnicFailure::InvalidVport),
                ),
            );
        }
        let wq_region = match state.get_dma_region(wq_gdma_region, wq_size) {
            Ok(region) => region.clone(),
            Err(err) => {
                return Err(BnicError::Plain(BnicFailure::Region(err)));
            },
        };
        let cq_region = match state.get_dma_region(cq_gdma_region, cq_size) {
            Ok(region) => region.clone(),
            Err(err) => {
                return Err(BnicError::Plain(BnicFailure::Region(err)));
            },
        };
        Ok(
            BnicStep::AllocQueues(
                WqObjAlloc {
                    vport: vport as usize,
                    is_send,
                    wq_gdma_region,
                    wq_region,
                    cq_gdma_region,
                    cq_region,
                    cq_parent_qid,
                },
            ),
        )
    }

    fn destroy_wq_obj(&mut self, wq_type: QueueType, handle: u64) -> (ret: Result<
        BnicStep,
        BnicError,
    >)
        ensures
            final(self)@ == old(self)@.destroy_wq_obj(wq_type, handle).0,
            bnic_outcome_is(ret, old(self)@.destroy_wq_obj(wq_type, handle).1),
    {
        let is_send = match direction_of(wq_type) {
            Some(is_send) => is_send,
            None => {
                return Err(
                    BnicError::Tagged(
                        BnicStatusError::new(
                            BnicStatus::InvalidWqType,
                            BnicFailure::UnsupportedQueueType,
                        ),
                    ),
                );
            },
        };
        let (i, pos) = match self.find_object(is_send, handle) {
            Some(found) => found,
            None => {
                return Err(
                    BnicError::Tagged(
                        BnicStatusError::new(
                            BnicStatus::InvalidWqHandle,
                            BnicFailure::QueueDoesNotExist,
                        ),
                    ),
                );
            },
        };
        assert(self@.vports[i as int] == self.vports@[i as int]@);
        if self.vports[i].tasks > 0 {
            return Err(BnicError::Plain(BnicFailure::QueueStillInUse));
        }
        let vport = &mut self.vports[i];
        let wq = if is_send {
            vport.tx.remove(pos)
        } else {
            vport.rx.remove(pos)
        };
        assert(self@.vports =~= old(self)@.destroy_wq_obj(wq_type, handle).0.vports);
        Ok(BnicStep::FreeQueues { is_send, wq_id: wq.wq_id, cq_id: wq.cq_id })
    }

    fn fence_rq(&self, handle: u64) -> (ret: Result<BnicStep, BnicError>)
        ensures
            bnic_outcome_is(ret, self@.fence_rq(handle)),
    {
        match self.find_object(false, handle) {
            Some((i, pos)) => {
                assert(self@.vports[i as int] == self.vports@[i as int]@);
                let rx = self.vports[i].rx[pos];
                Ok(
                    BnicStep::Fence {
                        cq_id: rx.cq_id,
                        wq_id: rx.wq_id,
                        route: if rx.fence_live {
                            Some((i, pos))
                        } else {
                            None
                        },
                    },
                )
            },
            None => Err(
                BnicError::Tagged(
                    BnicStatusError::new(
                        BnicStatus::InvalidWqHandle,
                        BnicFailure::QueueDoesNotExist,
                    ),
                ),
            ),
        }
    }

    fn config_rx(&mut self, state: &HwState, msg_version: u16, req: RxSteerRequest) -> (ret: Result<
        BnicStep,
        BnicError,
    >)
        ensures
            final(self)@ == old(self)@.config_rx(state@, msg_version, req).0,
            bnic_outcome_is(ret, old(self)@.config_rx(state@, msg_version, req).1),
    {
        let is_v2 = msg_version >= GDMA_MESSAGE_V2;
        if req.vport >= self.vports.len() as u64 {
            return Err(
                BnicError::Tagged(
                    BnicStatusError::new(BnicStatus::InvalidVportHandle, BnicFailure::InvalidVport),
                ),
            );
        }
        let i: usize = req.vport as usize;
        assert(self@.vports[i as int] == self.vports@[i as int]@);
        let negotiates = is_v2 && req.rx_enable != Tristate::False;
        if negotiates && req.tail.len() == 0 {
            return Err(BnicError::Plain(BnicFailure::CoalescingByte));
        }
        let vport = &mut self.vports[i];
        if negotiates {
            // Running tasks read this setting on their next poll, so a pure toggle takes effect
            // on live traffic without cycling the data path.
            vport.cqe_coalescing = req.tail[0] != 0;
        }
        let next_key = match req.rss_enable {
            Tristate::False => None,
            Tristate::True => if req.update_hashkey != 0 {
                Some(req.hashkey)
            } else {
                vport.rss_key
            },
            Tristate::Other => vport.rss_key,
        };
        let mut stop_endpoint = false;
        let mut start = StartPlan::NotNeeded;
        let mut link: Option<EqPost> = None;
        if req.rx_enable == Tristate::False {
            stop_endpoint = vport.stop_datapath();
            link = Some(state.post_vport_link_status(req.vport as u32, false));
        } else if req.rx_enable == Tristate::True && vport.tasks == 0 {
            start = match vport.plan_datapath(&req) {
                Ok(plan) => StartPlan::Start(plan),
                Err(err) => StartPlan::Failed(err),
            };
            vport.rss_key = next_key;
            link = Some(state.post_vport_link_status(req.vport as u32, true));
        } else if vport.tasks > 0 && (req.update_indir_tab != 0 || req.update_hashkey != 0) {
            start = match vport.plan_datapath(&req) {
                Ok(plan) => StartPlan::Start(plan),
                Err(err) => StartPlan::Failed(err),
            };
            stop_endpoint = vport.stop_datapath();
            vport.rss_key = next_key;
        }
        let body = if is_v2 {
            BnicBody::RxSteer { cqe_coalescing_timeout_ns: MANA_RX_CQE_COALESCING_TIMEOUT_NS }
        } else {
            BnicBody::Empty
        };
        assert(self@.vports =~= old(self)@.config_rx(state@, msg_version, req).0.vports);
        Ok(BnicStep::Steer(RxSteering { vport: i, stop_endpoint, start, link, body }))
    }

    /// Services a command of the network client.
    pub fn handle_req(&mut self, state: &HwState, msg_version: u16, req: BnicRequest) -> (ret:
        Result<BnicStep, BnicError>)
        requires
            state.wf(),
            req is PfCreateFilter ==> old(self)@.next_filter_handle < u64::MAX,
        ensures
            final(self)@ == old(self)@.handle(state@, msg_version, req).0,
            bnic_outcome_is(ret, old(self)@.handle(state@, msg_version, req).1),
    {
        match req {
            BnicRequest::QueryDevConfig => Ok(
                BnicStep::Reply(
                    BnicBody::DevConfig {
                        mana_direct: true,
                        max_num_vports: self.vports.len() as u16,
                        bm_hostmode: if self.config.bm_hostmode {
                            1
                        } else {
                            0
                        },
                        max_num_eqs: 64,
                        adapter_mtu: MANA_DEFAULT_ADAPTER_MTU,
                        adapter_link_speed_mbps: self.config.adapter_link_speed_mbps,
                    },
                ),
            ),
            BnicRequest::ConfigVportTx { vport } => {
                if vport >= self.vports.len() as u64 {
                    return Err(
                        BnicError::Tagged(
                            BnicStatusError::new(
                                BnicStatus::InvalidVportHandle,
                                BnicFailure::InvalidVport,
                            ),
                        ),
                    );
                }
                Ok(
                    BnicStep::Reply(
                        BnicBody::VportTx { tx_vport_offset: 0, short_form_allowed: 1 },
                    ),
                )
            },
            BnicRequest::CreateWqObj {
                wq_type,
                vport,
                wq_gdma_region,
                wq_size,
                cq_gdma_region,
                cq_size,
                cq_parent_qid,
            } => self.create_wq_obj(
                state,
                wq_type,
                vport,
                wq_gdma_region,
                wq_size,
                cq_gdma_region,
                cq_size,
                cq_parent_qid,
            ),
            BnicRequest::DestroyWqObj { wq_type, wq_obj_handle } => self.destroy_wq_obj(
                wq_type,
                wq_obj_handle,
            ),
            BnicRequest::FenceRq { wq_obj_handle } => self.fence_rq(wq_obj_handle),
            BnicRequest::ConfigVportRx(steer) => self.config_rx(state, msg_version, steer),
            BnicRequest::Vtl2MoveFilter => Err(BnicError::Plain(BnicFailure::MoveFilter)),
            BnicRequest::Vtl2QueryFilterState { vport } => {
                if vport >= self.vports.len() as u64 {
                    return Err(BnicError::Plain(BnicFailure::InvalidVport));
                }
                Ok(BnicStep::Reply(BnicBody::FilterState { direction_to_vtl0: 0 }))
            },
            BnicRequest::PfCreateVport => {
                // Vports are addressed by their index throughout, so the handle of the device's
                // vport is simply its index. The requested address and VLAN policy are accepted,
                // but the configured vport stays authoritative.
                Ok(BnicStep::Reply(BnicBody::PfVport { vport_handle: 0 }))
            },
            BnicRequest::PfCreateFilter { vport_handle } => {
                if vport_handle >= self.vports.len() as u64 {
                    return Err(
                        BnicError::Tagged(
                            BnicStatusError::new(
                                BnicStatus::InvalidVportHandle,
                                BnicFailure::InvalidVport,
                            ),
                        ),
                    );
                }
                let filter_handle: u64 = self.next_filter_handle;
                self.next_filter_handle = filter_handle + 1;
                Ok(BnicStep::Reply(BnicBody::PfFilter { filter_handle }))
            },
            BnicRequest::QueryFilterCap => Ok(
                BnicStep::Reply(
                    BnicBody::FilterCap { max_num_filters: 1, max_num_rx_objects: 64 },
                ),
            ),
            BnicRequest::QueryVportConfig { vport_index } => {
                if vport_index as u64 >= self.vports.len() as u64 {
                    return Err(
                        BnicError::Tagged(
                            BnicStatusError::new(
                                BnicStatus::InvalidVportIndex,
                                BnicFailure::InvalidVport,
                            ),
                        ),
                    );
                }
                let vport = &self.vports[vport_index as usize];
                assert(self@.vports[vport_index as int] == vport@);
                // Advertise as many queues as the backend can service, capped to a sane maximum.
                let max_queues: u32 = if vport.max_queues < 1 {
                    1
                } else if vport.max_queues > MANA_MAX_QUEUES_PER_VPORT {
                    MANA_MAX_QUEUES_PER_VPORT as u32
                } else {
                    vport.max_queues as u32
                };
                Ok(
                    BnicStep::Reply(
                        BnicBody::VportConfig {
                            max_num_sq: max_queues,
                            max_num_rq: max_queues,
                            num_indirection_ent: MANA_INDIRECTION_TABLE_SIZE,
                            mac_addr: vport.mac_address,
                            vport: vport_index as u64,
                        },
                    ),
                )
            },
            BnicRequest::QueryStats { requested_statistics } => {
                // The data path keeps no traffic counters, so report the requested statistics as
                // available with zeroed values.
                Ok(
                    BnicStep::Reply(
                        BnicBody::Stats { reported_statistics: requested_statistics },
                    ),
                )
            },
            BnicRequest::QueryPhyStat { requested_statistics } => Ok(
                BnicStep::Reply(BnicBody::PhyStats { reported_statistics: requested_statistics }),
            ),
            BnicRequest::QueryLinkConfig => {
                // The speed is an adapter-wide property, so it is returned for every vport.
                let speed_mbps: u32 = self.config.link_speed_mbps();
                Ok(
                    BnicStep::Reply(
                        BnicBody::LinkConfig {
                            qos_speed_mbps: speed_mbps,
                            qos_unconfigured: 0,
                            link_speed_mbps: speed_mbps,
                        },
                    ),
                )
            },
            BnicRequest::Vtl2AssignSerialNumber { vport, serial_no } => {
                if vport >= self.vports.len() as u64 {
                    return Err(BnicError::Plain(BnicFailure::InvalidVport));
                }
                let target = &mut self.vports[vport as usize];
                target.serial_no = serial_no;
                assert(self@.vports =~= old(self)@.handle(state@, msg_version, req).0.vports);
                Ok(BnicStep::Reply(BnicBody::Empty))
            },
            BnicRequest::Truncated => Err(BnicError::Plain(BnicFailure::Truncated)),
            BnicRequest::Unsupported { msg_type } => Err(
                BnicError::Tagged(
                    BnicStatusError::new(
                        BnicStatus::CommandUnsupported,
                        BnicFailure::Unsupported(msg_type),
                    ),
                ),
            ),
        }
    }
}

impl BasicNic {
    /// Adds the work-queue object for which two queues were to be allocated (`None` for one that
    /// could not be).
    pub fn queues_allocated(&mut self, alloc: &WqObjAlloc, wq: Option<u32>, cq: Option<u32>) -> (ret:
        Result<BnicBody, BnicError>)
        requires
            alloc@.vport < old(self)@.vports.len(),
            old(self)@.next_wq_obj < u64::MAX,
        ensures
            match (wq, cq) {
                (None, _) => ret == Err::<BnicBody, BnicError>(
                    BnicError::Plain(BnicFailure::WqAlloc),
                ) && final(self)@ == old(self)@,
                (Some(_), None) => ret == Err::<BnicBody, BnicError>(
                    BnicError::Plain(BnicFailure::CqAlloc),
                ) && final(self)@ == old(self)@,
                (Some(wq_id), Some(cq_id)) => ret == Ok::<BnicBody, BnicError>(
                    BnicBody::WqObj { wq_id, cq_id, wq_obj: old(self)@.next_wq_obj },
                ) && final(self)@ == old(self)@.add_wq_obj(
                    alloc@.vport,
                    alloc@.is_send,
                    wq_id,
                    cq_id,
                ),
            },
    {
        let wq_id: u32 = match wq {
            Some(wq_id) => wq_id,
            None => {
                return Err(BnicError::Plain(BnicFailure::WqAlloc));
            },
        };
        let cq_id: u32 = match cq {
            Some(cq_id) => cq_id,
            None => {
                return Err(BnicError::Plain(BnicFailure::CqAlloc));
            },
        };
        let wq_obj: u64 = self.next_wq_obj;
        self.next_wq_obj = wq_obj + 1;
        let object = WqObject { wq_obj, wq_id, cq_id, fence_live: false };
        let vport = &mut self.vports[alloc.vport];
        if alloc.is_send {
            vport.tx.push(object);
        } else {
            vport.rx.push(object);
        }
        assert(self@.vports =~= old(self)@.add_wq_obj(
            alloc@.vport,
            alloc@.is_send,
            wq_id,
            cq_id,
        ).vports);
        Ok(BnicBody::WqObj { wq_id, cq_id, wq_obj })
    }

    /// Concludes the creation of a work-queue object after its response was written, or could not
    /// be: the queues take ownership of their regions.
    pub fn wq_obj_written(state: &mut HwState, alloc: &WqObjAlloc, written: bool) -> (ret: Result<
        (),
        BnicError,
    >)
        requires
            old(state).wf(),
            written ==> {
                &&& old(state)@.regions.contains_key(crate::hwc::slot_of(alloc@.wq_gdma_region))
                &&& old(state)@.regions.contains_key(crate::hwc::slot_of(alloc@.cq_gdma_region))
                &&& crate::hwc::slot_of(alloc@.wq_gdma_region) != crate::hwc::slot_of(
                    alloc@.cq_gdma_region,
                )
            },
        ensures
            final(state).wf(),
            if written {
                ret == Ok::<(), BnicError>(()) && final(state)@ == old(state)@.remove_region(
                    alloc@.wq_gdma_region,
                ).remove_region(alloc@.cq_gdma_region)
            } else {
                ret == Err::<(), BnicError>(BnicError::Plain(BnicFailure::ResponseWrite))
                    && final(state)@ == old(state)@
            },
    {
        if !written {
            return Err(BnicError::Plain(BnicFailure::ResponseWrite));
        }
        let first = state.remove_dma_region(alloc.wq_gdma_region);
        let second = state.remove_dma_region(alloc.cq_gdma_region);
        assert(first is Ok && second is Ok);
        Ok(())
    }

    /// Answers a fence: a fence that no task took is completed inline, since nothing is in flight
    /// to order it against.
    pub fn fence_post(cq_id: u32, wq_id: u32, routed: bool) -> (ret: Option<CqPost>)
        ensures
            match ret {
                None => routed,
                Some(post) => !routed && post@ == (CqPostView {
                    cq_id,
                    cqe: CqeView::Rx(RxCompletionView::fence()),
                    wq_id,
                    is_send: false,
                }),
            },
    {
        if routed {
            None
        } else {
            Some(CqPost { cq_id, cqe: Cqe::Rx(fence_completion()), wq_id, is_send: false })
        }
    }

    /// Starts a vport's data path on the queues that the backend provided.
    pub fn start_vport_datapath(
        &mut self,
        vport: usize,
        plan: &DatapathPlan,
        provided: Option<usize>,
    ) -> (ret: Result<Vec<TaskPlan>, BnicError>)
        requires
            vport < old(self)@.vports.len(),
            0 < plan@.backend_queues <= old(self)@.vports[vport as int].pairs(),
        ensures
            match ret {
                Ok(tasks) => {
                    let before = old(self)@.vports[vport as int];
                    &&& provided == Some(plan.backend_queues)
                    &&& final(self)@ == old(self)@.with_vport(
                        vport as int,
                        before.started(plan@.backend_queues),
                    )
                    &&& tasks@.map_values(|task: TaskPlan| task@) == before.task_plans(
                        plan@.backend_queues,
                    )
                },
                Err(err) => {
                    &&& final(self)@ == old(self)@
                    &&& err == match provided {
                        None => BnicError::Plain(BnicFailure::Backend),
                        Some(_) => BnicError::Plain(BnicFailure::BackendQueueCount),
                    }
                    &&& provided != Some(plan.backend_queues)
                },
            },
    {
        assert(self@.vports[vport as int] == self.vports@[vport as int]@);
        let target = &mut self.vports[vport];
        let started = target.start_datapath(plan, provided);
        match started {
            Ok(tasks) => {
                assert(self@.vports =~= old(self)@.with_vport(
                    vport as int,
                    old(self)@.vports[vport as int].started(plan@.backend_queues),
                ).vports);
                Ok(tasks)
            },
            Err(err) => {
                assert(self@.vports =~= old(self)@.vports);
                Err(BnicError::Plain(err))
            },
        }
    }

    /// Tears down every vport's data path and returns the vport to its initial state. Tells of
    /// each vport whether its endpoint is to be stopped.
    pub fn shutdown(&mut self) -> (ret: Vec<bool>)
        ensures
            final(self)@ == old(self)@.shut_down(),
            ret@ == old(self)@.vports.map_values(|vport: VportView| vport.tasks > 0),
            ret@ == endpoints_to_stop(old(self)@.vports),
    {
        let mut stopped: Vec<bool> = Vec::new();
        let mut i: usize = 0;
        while i < self.vports.len()
            invariant
                i <= self.vports@.len(),
                self.vports@.len() == old(self).vports@.len(),
                self.config == old(self).config,
                self.next_wq_obj == old(self).next_wq_obj,
                self.next_filter_handle == old(self).next_filter_handle,
                stopped@.len() == i,
                forall|k: int|
                    0 <= k < i ==> #[trigger] stopped@[k] == (old(self).vports@[k]@.tasks > 0),
                forall|k: int|
                    0 <= k < i ==> (#[trigger] self.vports@[k])@
                        == old(self).vports@[k]@.shut_down(),
                forall|k: int|
                    i <= k < self.vports@.len() ==> #[trigger] self.vports@[k]
                        == old(self).vports@[k],
            decreases self.vports@.len() - i,
        {
            let vport = &mut self.vports[i];
            let stop = vport.stop_datapath();
            vport.forget();
            stopped.push(stop);
            i = i + 1;
        }
        assert(self@.vports =~= old(self)@.shut_down().vports);
        assert(stopped@ =~= endpoints_to_stop(old(self)@.vports));
        stopped
    }

    /// Tears down the vports from a context that cannot wait, as far as that gets: `stopped` tells
    /// of each vport how many of its tasks, from the first on, have stopped. Tells how many vports
    /// are torn down, so that their endpoints are to be stopped; the teardown is over when all
    /// are.
    ///
    /// Tasks are dropped as they stop, so that progress is kept from poll to poll. A vport waits
    /// for those before it.
    pub fn poll_shutdown(&mut self, stopped: &Vec<usize>) -> (ret: usize)
        requires
            stopped@.len() == old(self)@.vports.len(),
        ensures
            final(self)@ == old(self)@.poll_shut_down(stopped@),
            ret == torn_down(old(self)@.vports, stopped@, 0),
            ret <= old(self)@.vports.len(),
    {
        let mut i: usize = 0;
        while i < self.vports.len()
            invariant
                i <= self.vports@.len(),
                self.vports@.len() == old(self).vports@.len(),
                stopped@.len() == self.vports@.len(),
                self.config == old(self).config,
                self.next_wq_obj == old(self).next_wq_obj,
                self.next_filter_handle == old(self).next_filter_handle,
                torn_down(old(self)@.vports, stopped@, 0) == torn_down(
                    old(self)@.vports,
                    stopped@,
                    i as nat,
                ),
                forall|k: int|
                    0 <= k < i ==> (#[trigger] self.vports@[k])@
                        == old(self).vports@[k]@.shut_down(),
                forall|k: int|
                    i <= k < self.vports@.len() ==> #[trigger] self.vports@[k]
                        == old(self).vports@[k],
            decreases self.vports@.len() - i,
        {
            assert(old(self)@.vports[i as int] == self.vports@[i as int]@);
            let vport = &mut self.vports[i];
            if stopped[i] < vport.tasks {
                vport.tasks = vport.tasks - stopped[i];
                assert(self@.vports =~= old(self)@.poll_shut_down(stopped@).vports);
                return i;
            }
            vport.tasks = 0;
            vport.forget();
            i = i + 1;
        }
        assert(self@.vports =~= old(self)@.poll_shut_down(stopped@).vports);
        i
    }
}

/// Which vports' endpoints are to be stopped: those whose data path runs.
pub open spec fn endpoints_to_stop(vports: Seq<VportView>) -> Seq<bool> {
    vports.map_values(|vport: VportView| vport.tasks > 0)
}

/// How many vports a poll leaves torn down: those before the first, from `i` on, that has a task
/// which has not stopped.
pub open spec fn torn_down(vports: Seq<VportView>, stopped: Seq<usize>, i: nat) -> nat
    decreases vports.len() - i,
{
    if i >= vports.len() {
        vports.len()
    } else if stopped[i as int] < vports[i as int].tasks {
        i
    } else {
        torn_down(vports, stopped, i + 1)
    }
}

impl NicView {
    /// The client after a poll of its teardown: the vport that waits for its tasks has lost those
    /// that have stopped, and the ones behind it are as they were.
    pub open spec fn poll_shut_down(self, stopped: Seq<usize>) -> NicView {
        let down = torn_down(self.vports, stopped, 0);
        NicView {
            vports: Seq::new(
                self.vports.len(),
                |i: int|
                    if i < down {
                        self.vports[i].shut_down()
                    } else if i == down {
                        VportView {
                            tasks: (self.vports[i].tasks - stopped[i]) as nat,
                            ..self.vports[i]
                        }
                    } else {
                        self.vports[i]
                    },
            ),
            ..self
        }
    }
}

/// What the guest's response buffer of `room` bytes holds: zeroes, so that fields that this device
/// does not know read as zero, with the body over its front. `None` for a body that has to fit and
/// does not.
pub open spec fn response_bytes_spec(room: nat, body: Seq<u8>, truncates: bool) -> Option<Seq<u8>> {
    if body.len() <= room {
        Some(splice(zero_bytes(room), 0, body))
    } else if truncates {
        Some(body.take(room as int))
    } else {
        None
    }
}

/// Lays out a response body in the guest's buffer.
pub fn response_bytes(room: usize, body: &[u8], truncates: bool) -> (ret: Result<
    Vec<u8>,
    BnicError,
>)
    ensures
        match ret {
            Ok(bytes) => response_bytes_spec(room as nat, body@, truncates) == Some(bytes@),
            Err(err) => response_bytes_spec(room as nat, body@, truncates) is None && err
                == BnicError::Plain(BnicFailure::ResponseWrite),
        },
{
    if body.len() <= room {
        let mut bytes = zeroes(room);
        write_bytes(&mut bytes, 0, body);
        Ok(bytes)
    } else if truncates {
        let bytes = copy_bytes(body, 0, room);
        assert(bytes@ =~= body@.take(room as int));
        Ok(bytes)
    } else {
        Err(BnicError::Plain(BnicFailure::ResponseWrite))
    }
}

} // verus!
