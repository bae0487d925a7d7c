//! What the guest sees of the device's registers, in terms of offsets and bytes.

use crate::bnic::{BnicConfig, VportConfig};
use crate::bytes::{le32_at, le64_at, splice};
use crate::channel::ChannelView;
use crate::device::{doorbell_at, identity_of, new_device, DeviceView, Doorbell, FlrStep};
use crate::device::RegAction;
use crate::hwc::QueueLimits;
use crate::regs::{block_of, field_reads_back, fields_fit, pf_cap_fields, pf_desc_fields};
use crate::regs::{block_of_has_its_length, pf_regs_fields, pf_sriov_fields, regmap_fields};
use crate::smc::{header_of, queue_gpa, reported_timeout, requested_queues, smc_verdict, SmcError};
use crate::smc::{SmcProtoHdr, SmcRequest};
use vstd::prelude::*;

verus! {

/// How the device presents itself: as a physical function in either of the two modes for that, as
/// a virtual function otherwise, and with an SR-IOV capability where it has capability registers.
pub proof fn device_presents_itself(config: BnicConfig)
    ensures
        ({
            let identity = identity_of(config);
            &&& identity.vendor_id == 0x1414
            &&& config.bm_hostmode || config.pf_caps ==> identity.device_id == 0xb9
            &&& !config.bm_hostmode && !config.pf_caps ==> identity.device_id == 0xba
            &&& identity.sriov <==> config.pf_caps
            &&& identity.revision_id == 1
            &&& identity.sub_vendor_id == 0 && identity.sub_system_id == 0
            &&& identity.bar0_len == 8192
            &&& identity.msix_bar == 4 && identity.msix_count == 64
        }),
{
}

/// Where the reads of a device without capability registers are served from, byte by byte: the
/// register map in the first 40 bytes, the shared-memory window in the 32 behind it, and, for a
/// bare-metal physical function, its registers from 0x48 on. A read that none of them holds whole
/// reads all ones.
pub proof fn plain_reads_are_served_by_region(device: DeviceView, offset: usize, len: nat, i: int)
    requires
        !device.config.pf_caps,
        device.shmem.len() == 32,
        0 <= i < len,
        offset + len <= usize::MAX,
    ensures
        ({
            let read = device.read(offset, len);
            let map = block_of(40, regmap_fields(40));
            let pf = block_of(0xc8, pf_regs_fields());
            let in_map = offset + len <= 40;
            let in_window = 40 <= offset && offset + len <= 72;
            let in_pf = device.config.bm_hostmode && 0x48 <= offset && offset + len <= 0x110;
            &&& read.len() == len
            &&& in_map ==> read[i] == map[offset + i]
            &&& in_window ==> read[i] == device.shmem[offset - 40 + i]
            &&& in_pf ==> read[i] == pf[offset - 0x48 + i]
            &&& !in_map && !in_window && !in_pf ==> read[i] == 0xff
        }),
{
    block_of_has_its_length(40, regmap_fields(40));
    block_of_has_its_length(0xc8, pf_regs_fields());
}

/// Where the reads of a device with capability registers are served from: the descriptor table at
/// the base of the BAR, the capability zone at 0x200, the SR-IOV zone at 0x300, and the
/// shared-memory window at 0x380.
pub proof fn privileged_reads_are_served_by_region(
    device: DeviceView,
    offset: usize,
    len: nat,
    i: int,
)
    requires
        device.config.pf_caps,
        !device.config.bm_hostmode,
        device.shmem.len() == 32,
        0 <= i < len,
        offset + len <= usize::MAX,
    ensures
        ({
            let read = device.read(offset, len);
            let desc = block_of(0x148, pf_desc_fields());
            let caps = block_of(0x68, pf_cap_fields(device.limits));
            let zone = block_of(0x80, pf_sriov_fields());
            let in_desc = offset + len <= 0x148;
            let in_caps = 0x200 <= offset && offset + len <= 0x268;
            let in_zone = 0x300 <= offset && offset + len <= 0x380;
            let in_window = 0x380 <= offset && offset + len <= 0x3a0;
            &&& read.len() == len
            &&& in_desc ==> read[i] == desc[offset + i]
            &&& in_caps ==> read[i] == caps[offset - 0x200 + i]
            &&& in_zone ==> read[i] == zone[offset - 0x300 + i]
            &&& in_window ==> read[i] == device.shmem[offset - 0x380 + i]
            &&& !in_desc && !in_caps && !in_zone && !in_window ==> read[i] == 0xff
        }),
{
    block_of_has_its_length(0x148, pf_desc_fields());
    block_of_has_its_length(0x68, pf_cap_fields(device.limits));
    block_of_has_its_length(0x80, pf_sriov_fields());
}

/// A field of two bytes of a block reads as the number that was stored.
proof fn short_field_reads_back(len: nat, fields: Seq<(int, int, nat)>, i: int)
    requires
        fields_fit(len, fields),
        0 <= i < fields.len(),
        fields[i].2 == 1 || fields[i].2 == 2,
        0 <= fields[i].1 < 0x1_0000,
        fields[i].2 == 1 ==> fields[i].1 < 0x100,
    ensures
        block_of(len, fields)[fields[i].0] == fields[i].1 % 256,
        fields[i].2 == 2 ==> block_of(len, fields)[fields[i].0 + 1] == fields[i].1 / 256,
{
    crate::regs::stored_field_is_there(len, fields, i);
    reveal_with_fuel(crate::bytes::le_bytes, 3);
    let stored = crate::bytes::le_bytes(fields[i].1, fields[i].2);
    assert(stored[0] == fields[i].1 % 256);
    assert(block_of(len, fields)[fields[i].0 + 0] == stored[0]);
    if fields[i].2 == 2 {
        assert(stored[1] == fields[i].1 / 256);
        assert(block_of(len, fields)[fields[i].0 + 1] == stored[1]);
    }
}

/// What a virtual function's register map tells: version 1.0.1, the doorbell page of 4096 bytes at
/// 4096, and the shared-memory window of 32 bytes where it starts.
pub proof fn register_map_tells_the_layout(shmem_start: usize)
    ensures
        ({
            let map = block_of(40, regmap_fields(shmem_start));
            &&& map.len() == 40
            &&& map[0] == 1 && map[1] == 0
            &&& map[2] == 0
            &&& map[3] == 1
            &&& le64_at(map, 8) == 4096
            &&& map[16] + 256 * map[17] == 4096
            &&& le64_at(map, 24) == shmem_start
            &&& map[32] + 256 * map[33] == 32
        }),
{
    let fields = regmap_fields(shmem_start);
    block_of_has_its_length(40, fields);
    assert(fields_fit(40, fields));
    short_field_reads_back(40, fields, 0);
    short_field_reads_back(40, fields, 1);
    short_field_reads_back(40, fields, 2);
    field_reads_back(40, fields, 3);
    short_field_reads_back(40, fields, 4);
    field_reads_back(40, fields, 5);
    short_field_reads_back(40, fields, 6);
}

/// What the capability zone tells: the queue maxima of the device, one physical function and no
/// virtual ones, one doorbell page, payloads of a standard frame, and 64 interrupts.
pub proof fn capability_zone_tells_the_limits(limits: QueueLimits)
    ensures
        ({
            let caps = block_of(0x68, pf_cap_fields(limits));
            &&& le32_at(caps, 0x00) == 0 && le32_at(caps, 0x04) == 0
            &&& le32_at(caps, 0x08) == limits.max_sqs
            &&& le32_at(caps, 0x10) == limits.max_rqs
            &&& le32_at(caps, 0x18) == limits.max_cqs
            &&& le32_at(caps, 0x20) == limits.max_eqs
            &&& le32_at(caps, 0x28) == 0
            &&& le32_at(caps, 0x30) == 0
            &&& le32_at(caps, 0x38) == 1
            &&& le32_at(caps, 0x40) == 0
            &&& le32_at(caps, 0x48) == 1514
            &&& le32_at(caps, 0x50) == 1
            &&& le32_at(caps, 0x58) == 64
            &&& le32_at(caps, 0x60) == 64
        }),
{
    let fields = pf_cap_fields(limits);
    assert(fields_fit(0x68, fields));
    field_reads_back(0x68, fields, 0);
    field_reads_back(0x68, fields, 1);
    field_reads_back(0x68, fields, 2);
    field_reads_back(0x68, fields, 3);
    field_reads_back(0x68, fields, 4);
    field_reads_back(0x68, fields, 5);
    field_reads_back(0x68, fields, 6);
    field_reads_back(0x68, fields, 7);
    field_reads_back(0x68, fields, 8);
    field_reads_back(0x68, fields, 9);
    field_reads_back(0x68, fields, 10);
    field_reads_back(0x68, fields, 11);
    field_reads_back(0x68, fields, 12);
    field_reads_back(0x68, fields, 13);
}

/// What a bare-metal physical function's registers tell, at their offsets in the BAR: the base of
/// the SR-IOV block, the shared-memory window from there, and the doorbell page.
pub proof fn physical_function_registers_tell_the_layout()
    ensures
        ({
            let pf = block_of(0xc8, pf_regs_fields());
            &&& le64_at(pf, 0x70 - 0x48) == 40
            &&& le64_at(pf, 0xc8 - 0x48) == 4096
            &&& le32_at(pf, 0xd0 - 0x48) == 4096
            &&& le64_at(pf, 0x108 - 0x48) == 0
        }),
{
    let fields = pf_regs_fields();
    assert(fields_fit(0xc8, fields));
    field_reads_back(0xc8, fields, 0);
    field_reads_back(0xc8, fields, 1);
    field_reads_back(0xc8, fields, 2);
    field_reads_back(0xc8, fields, 3);
}

/// What the SR-IOV zone tells: where the shared-memory window starts from there, and its size.
pub proof fn sriov_zone_tells_the_window()
    ensures
        ({
            let zone = block_of(0x80, pf_sriov_fields());
            0x300 + le64_at(zone, 0x70) == 0x380 && le32_at(zone, 0x78) == 32
        }),
{
    let fields = pf_sriov_fields();
    assert(fields_fit(0x80, fields));
    field_reads_back(0x80, fields, 0);
    field_reads_back(0x80, fields, 1);
}

/// The doorbells, by their offsets in the doorbell page: each hands the value on to queues of its
/// kind, and there is nothing in between.
pub proof fn doorbells_are_for_their_queues(offset: int, value: u64)
    ensures
        doorbell_at(0, value) == Doorbell::Sq(value),
        doorbell_at(0x400, value) == Doorbell::Rq(value),
        doorbell_at(0x408, value) == Doorbell::RqClientData,
        doorbell_at(0x800, value) == Doorbell::Cq(value),
        doorbell_at(0xff8, value) == Doorbell::Eq(value),
        offset != 0 && offset != 0x400 && offset != 0x408 && offset != 0x800 && offset != 0xff8
            ==> doorbell_at(offset, value) == Doorbell::Unknown,
{
}

/// What a register write does. Into the shared-memory window, short of its last dword, it stores
/// its bytes and asks for nothing; of eight bytes into the doorbell page, it rings the doorbell
/// there with the number written; into anything else it does nothing. The window is at 40, or at
/// 0x380 on a device with capability registers.
pub proof fn writes_do_what_their_place_says(
    device: DeviceView,
    offset: usize,
    data: Seq<u8>,
    i: int,
)
    requires
        device.shmem.len() == 32,
        0 < data.len(),
        offset + data.len() <= usize::MAX,
        0 <= i < 32,
    ensures
        ({
            let (after, action) = device.write(offset, data);
            let start = if device.config.pf_caps {
                0x380int
            } else {
                40
            };
            let end = offset + data.len();
            let in_window = start <= offset && end <= start + 32;
            let in_page = 4096 <= offset && end <= 8192 && data.len() == 8;
            let at = offset - start;
            &&& in_window && end <= start + 28 ==> {
                &&& action == RegAction::Done
                &&& after.shmem.len() == 32
                &&& after.shmem[i] == if at <= i < at + data.len() {
                    data[i - at]
                } else {
                    device.shmem[i]
                }
                &&& after.hwc == device.hwc && after.bnic == device.bnic
                &&& after.destroying_hwc == device.destroying_hwc
            }
            &&& in_window && end > start + 28 && i < 28 ==> after.shmem[i] == if at <= i < at
                + data.len() {
                data[i - at]
            } else {
                device.shmem[i]
            }
            &&& in_page ==> after == device && action == RegAction::Ring(
                doorbell_at(offset - 4096, le64_at(data, 0) as u64),
            )
            &&& !in_window && !in_page ==> after == device && action == RegAction::BadWrite
        }),
{
    let at = (offset - if device.config.pf_caps {
        0x380int
    } else {
        40
    }) as usize;
    let stored = splice(device.shmem, at as int, data);
    crate::smc::header_reads_back(stored, header_of(stored).possessed());
    let held = crate::smc::with_header(stored, header_of(stored).possessed());
    crate::smc::header_reads_back(held, header_of(held).answered(0));
    crate::smc::header_reads_back(held, header_of(held).answered(1));
}

/// What a write of the header dword asks for: what the request in the window is, once the device
/// holds the window.
pub proof fn requests_get_their_action(device: DeviceView, at: usize, data: Seq<u8>)
    requires
        device.shmem.len() == 32,
        at + data.len() <= 32,
        at < 32 && at + data.len() > 28,
    ensures
        ({
            let (after, action) = device.write_shmem(at, data);
            let stored = splice(device.shmem, at as int, data);
            let held = crate::smc::with_header(stored, header_of(stored).possessed());
            &&& match smc_verdict(held, device.hwc is Some) {
                Ok(SmcRequest::EstablishHwc(queues)) => action == RegAction::Establish(queues)
                    && after.destroying_hwc == device.destroying_hwc,
                Ok(SmcRequest::DestroyHwc) => action == RegAction::StopHwc && after.destroying_hwc,
                Ok(SmcRequest::HostMgmtReady) => action == RegAction::Done && after.destroying_hwc
                    == device.destroying_hwc,
                Ok(SmcRequest::ReportHwcTimeout(timeout)) => action == RegAction::Timeout(timeout)
                    && after.destroying_hwc == device.destroying_hwc,
                Err(err) => action == RegAction::Refused(err) && after.destroying_hwc
                    == device.destroying_hwc,
            }
            &&& after.hwc == device.hwc
            &&& after.bnic == device.bnic
            &&& after.flr_draining == device.flr_draining
        }),
{
}

/// The fields of the header, in its four bytes: kind and version in the low bits of the first, the
/// direction in its top bit, the status in the second, and the possession in the top bit of the
/// last.
pub proof fn header_fields_are_in_their_bytes(shmem: Seq<u8>)
    requires
        shmem.len() == 32,
    ensures
        ({
            let hdr = header_of(shmem);
            &&& hdr.msg_type() == shmem[28] % 8
            &&& hdr.msg_version() == (shmem[28] / 8) % 8
            &&& hdr.is_response() <==> shmem[28] >= 128
            &&& hdr.status() == shmem[29]
            &&& hdr.owner_is_pf() <==> shmem[31] >= 128
        }),
{
    let a = shmem[28] as u32;
    let b = shmem[29] as u32;
    let c = shmem[30] as u32;
    let d = shmem[31] as u32;
    let raw = header_of(shmem).raw;
    assert(raw % 8 == a % 8 && (raw / 8) % 8 == (a / 8) % 8 && ((raw / 0x80) % 2 == 1 <==> a >= 128)
        && (raw / 0x100) % 0x100 == b && (raw >= 0x8000_0000 <==> d >= 128)) by (bit_vector)
        requires
            raw == a + 0x100 * b + 0x1_0000 * c + 0x100_0000 * d,
            a < 256,
            b < 256,
            c < 256,
            d < 256,
    ;
}

/// Taking possession sets the top bit of the header and nothing else.
pub proof fn possession_is_the_top_bit(hdr: SmcProtoHdr)
    ensures
        hdr.possessed().raw >= 0x8000_0000,
        hdr.possessed().raw % 0x8000_0000 == hdr.raw % 0x8000_0000,
{
}

/// What the requests in the window are, by kind and version: establishing (1) and destroying (2) a
/// channel and the readiness query (3) in version 0, and the report of a timeout (4) from version
/// 1 on. A response is no request, a version that is not known is told, and so is a kind.
pub proof fn requests_go_by_kind_and_version(shmem: Seq<u8>, active: bool)
    ensures
        ({
            let hdr = header_of(shmem);
            let kind = hdr.msg_type();
            let version = hdr.msg_version();
            let verdict = smc_verdict(shmem, active);
            &&& hdr.is_response() ==> verdict == Err::<SmcRequest, SmcError>(
                SmcError::RequestIsResponse,
            )
            &&& !hdr.is_response() ==> {
                &&& kind == 1 && version == 0 && !active ==> verdict == Ok::<SmcRequest, SmcError>(
                    SmcRequest::EstablishHwc(requested_queues(shmem)),
                )
                &&& kind == 1 && version == 0 && active ==> verdict == Err::<SmcRequest, SmcError>(
                    SmcError::HwcAlreadyActive,
                )
                &&& kind == 2 && version == 0 ==> verdict == Ok::<SmcRequest, SmcError>(
                    SmcRequest::DestroyHwc,
                )
                &&& kind == 3 && version == 0 ==> verdict == Ok::<SmcRequest, SmcError>(
                    SmcRequest::HostMgmtReady,
                )
                &&& kind == 4 && version >= 1 ==> verdict == Ok::<SmcRequest, SmcError>(
                    SmcRequest::ReportHwcTimeout(reported_timeout(shmem)),
                )
                &&& 1 <= kind <= 3 && version != 0 || kind == 4 && version == 0 ==> verdict == Err::<
                    SmcRequest,
                    SmcError,
                >(SmcError::UnsupportedVersion)
                &&& kind == 0 || kind > 4 ==> verdict == Err::<SmcRequest, SmcError>(
                    SmcError::UnsupportedRequest(kind),
                )
            }
        }),
{
}

/// The 48-bit number in six bytes from a position on, least significant first.
pub open spec fn six_bytes(shmem: Seq<u8>, i: int) -> int {
    shmem[i] + 0x100 * shmem[i + 1] + 0x1_0000 * shmem[i + 2] + 0x100_0000 * shmem[i + 3]
        + 0x1_0000_0000 * shmem[i + 4] + 0x100_0000_0000 * shmem[i + 5]
}

/// The queues that a request to establish a channel names, byte by byte: the page numbers of
/// event, completion, receive and send queue, six bytes each one after the other, with their upper
/// four bits in the four half-bytes that follow, low half first; and then the interrupt, in two
/// bytes.
pub proof fn requested_queues_are_unpacked(shmem: Seq<u8>)
    requires
        shmem.len() == 32,
    ensures
        ({
            let queues = requested_queues(shmem);
            let top = 0x1_0000_0000_0000int;
            &&& queues.eq_gpa == 4096 * (six_bytes(shmem, 0) + top * (shmem[24] % 16))
            &&& queues.cq_gpa == 4096 * (six_bytes(shmem, 6) + top * (shmem[24] / 16))
            &&& queues.rq_gpa == 4096 * (six_bytes(shmem, 12) + top * (shmem[25] % 16))
            &&& queues.sq_gpa == 4096 * (six_bytes(shmem, 18) + top * (shmem[25] / 16))
            &&& queues.eq_msix == shmem[26] + 256 * shmem[27]
        }),
{
    let a = shmem[24] as u32;
    let b = shmem[25] as u32;
    let c = shmem[26] as u32;
    let d = shmem[27] as u32;
    let word = le32_at(shmem, 24) as u32;
    assert(word % 16 == a % 16 && (word / 0x10) % 16 == a / 16 && (word / 0x100) % 16 == b % 16 && (
    word / 0x1000) % 16 == b / 16 && word / 0x1_0000 == c + 256 * d) by (bit_vector)
        requires
            word == a + 0x100 * b + 0x1_0000 * c + 0x100_0000 * d,
            a < 256,
            b < 256,
            c < 256,
            d < 256,
    ;
    crate::smc::requested_queues_are_aligned(shmem);
    assert(0 <= queue_gpa(shmem, 0, 1) <= u64::MAX);
    assert(0 <= queue_gpa(shmem, 6, 0x10) <= u64::MAX);
    assert(0 <= queue_gpa(shmem, 12, 0x100) <= u64::MAX);
    assert(0 <= queue_gpa(shmem, 18, 0x1000) <= u64::MAX);
}

/// The report of a timeout, byte by byte: four numbers of four bytes, and, in the seventh dword,
/// the time waited in three bytes and a failed command in the lowest bit of the fourth.
pub proof fn reported_timeout_is_unpacked(shmem: Seq<u8>)
    requires
        shmem.len() == 32,
    ensures
        ({
            let timeout = reported_timeout(shmem);
            &&& timeout.rqt == le32_at(shmem, 0)
            &&& timeout.sqt == le32_at(shmem, 4)
            &&& timeout.cqn == le32_at(shmem, 8)
            &&& timeout.eqn == le32_at(shmem, 12)
            &&& timeout.wait_time == shmem[24] + 0x100 * shmem[25] + 0x1_0000 * shmem[26]
            &&& timeout.cmd_failed == shmem[27] % 2
        }),
{
    let low = (shmem[24] + 0x100 * shmem[25] + 0x1_0000 * shmem[26]) as u32;
    let d = shmem[27] as u32;
    let word = le32_at(shmem, 24) as u32;
    assert(word % 0x100_0000 == low && word / 0x100_0000 == d) by (bit_vector)
        requires
            word == low + 0x100_0000 * d,
            low < 0x100_0000,
            d < 256,
    ;
}

/// A function-level reset waits for the channel, and then for the tasks of the vports: it is over
/// exactly where all of them have stopped, and tells how many vports are down until then.
pub proof fn function_level_reset_waits_for_all(
    device: DeviceView,
    signaled: bool,
    hwc_stopped: bool,
    stopped: Seq<usize>,
)
    requires
        stopped.len() == device.bnic.vports.len() <= usize::MAX,
    ensures
        ({
            let (after, step) = device.poll_flr(signaled, hwc_stopped, stopped);
            let under_way = device.flr_draining || signaled;
            let all = forall|i: int|
                0 <= i < stopped.len() ==> stopped[i] >= (#[trigger] device.bnic.vports[i]).tasks;
            &&& !under_way ==> step is Idle && after == device
            &&& under_way && !hwc_stopped ==> step == (FlrStep::Pending { endpoints: 0 })
                && after.bnic == device.bnic && after.hwc == device.hwc && after.flr_draining
            &&& under_way && hwc_stopped ==> (step is Finished <==> all)
            &&& under_way && hwc_stopped && !all ==> (step matches FlrStep::Pending { endpoints }
                && endpoints < stopped.len() && stopped[endpoints as int]
                < device.bnic.vports[endpoints as int].tasks) && after.flr_draining && after.hwc
                == device.hwc && after.bnic == device.bnic.poll_shut_down(stopped)
            &&& step is Finished ==> after.hwc is None && !after.flr_draining
                && !after.destroying_hwc
        }),
{
    crate::nic_laws::torn_down_is_a_prefix(device.bnic.vports, stopped, 0);
    let down = crate::bnic::torn_down(device.bnic.vports, stopped, 0);
    if down == stopped.len() {
        assert forall|i: int| 0 <= i < stopped.len() implies stopped[i] >= (
        #[trigger] device.bnic.vports[i]).tasks by {}
    } else {
        assert(stopped[down as int] < device.bnic.vports[down as int].tasks);
    }
}

/// Establishing a channel is answered: with success, and the channel is there, or with a failure,
/// and there is none; either way the guest has the window back, with a response to what it asked.
pub proof fn establishing_is_answered(device: DeviceView, hwc: Option<ChannelView>)
    requires
        device.shmem.len() == 32,
        device.hwc is None,
    ensures
        ({
            let after = device.after_establish(hwc);
            let asked = header_of(device.shmem);
            let told = header_of(after.shmem);
            &&& after.hwc == hwc
            &&& told.is_response()
            &&& !told.owner_is_pf()
            &&& told.status() == if hwc is Some {
                0int
            } else {
                1
            }
            &&& told.msg_type() == asked.msg_type()
            &&& after.bnic == device.bnic
        }),
{
    let asked = header_of(device.shmem);
    crate::smc::answer_keeps_the_message(asked, 0);
    crate::smc::answer_keeps_the_message(asked, 1);
    crate::smc::header_reads_back(device.shmem, asked.answered(0));
    crate::smc::header_reads_back(device.shmem, asked.answered(1));
}

/// A read changes nothing, but for one of the shared-memory window while a channel is being
/// destroyed: once the channel has stopped, that one finds the request answered and the channel
/// gone.
pub proof fn reads_change_nothing_but_a_finished_destroy(
    device: DeviceView,
    offset: usize,
    len: nat,
    hwc_stopped: bool,
)
    requires
        !device.config.pf_caps,
        device.shmem.len() == 32,
        offset + len <= usize::MAX,
        0 < len,
    ensures
        ({
            let after = device.after_read(offset, len, hwc_stopped);
            let in_window = 40 <= offset && offset + len <= 72;
            let told = header_of(after.shmem);
            &&& !in_window || !device.destroying_hwc || !hwc_stopped ==> after == device
            &&& in_window && device.destroying_hwc && hwc_stopped ==> {
                &&& after.hwc is None
                &&& !after.destroying_hwc
                &&& told.is_response() && told.status() == 0 && !told.owner_is_pf()
                &&& told.msg_type() == header_of(device.shmem).msg_type()
                &&& after.bnic == device.bnic
            }
        }),
{
    let asked = header_of(device.shmem);
    crate::smc::answer_keeps_the_message(asked, 0);
    crate::smc::header_reads_back(device.shmem, asked.answered(0));
}

/// The same with capability registers, where the window is at 0x380.
pub proof fn privileged_reads_change_nothing_but_a_finished_destroy(
    device: DeviceView,
    offset: usize,
    len: nat,
    hwc_stopped: bool,
)
    requires
        device.config.pf_caps,
        offset + len <= usize::MAX,
        0 < len,
    ensures
        ({
            let after = device.after_read(offset, len, hwc_stopped);
            let in_window = 0x380 <= offset && offset + len <= 0x3a0;
            &&& !in_window || !device.destroying_hwc || !hwc_stopped ==> after == device
            &&& in_window && device.destroying_hwc && hwc_stopped ==> after.hwc is None
                && !after.destroying_hwc
        }),
{
}

/// A new device has no channel, an empty window, and the vports that it was given, none of them
/// with a queue or a task.
pub proof fn new_device_is_idle(
    limits: QueueLimits,
    vports: Seq<VportConfig>,
    config: BnicConfig,
    i: int,
)
    requires
        0 <= i < vports.len(),
    ensures
        ({
            let device = new_device(limits, vports, config);
            let vport = device.bnic.vports[i];
            &&& device.config == config && device.bnic.config == config
            &&& device.limits == limits
            &&& device.hwc is None && !device.destroying_hwc && !device.flr_draining
            &&& device.shmem.len() == 32
            &&& forall|k: int| 0 <= k < 32 ==> #[trigger] device.shmem[k] == 0
            &&& device.bnic.vports.len() == vports.len()
            &&& vport.mac_address == vports[i].mac_address
            &&& vport.max_queues == vports[i].max_queues
            &&& vport.tasks == 0 && vport.tx.len() == 0 && vport.rx.len() == 0
            &&& vport.serial_no == 0 && !vport.cqe_coalescing && vport.rss_key is None
            &&& device.bnic.next_wq_obj == 1 && device.bnic.next_filter_handle == 1
        }),
{
}

} // verus!
