//! The shared-memory channel, over which the guest establishes and destroys the hardware channel.
//!
//! The guest writes a request into the shared-memory window, its header dword last; the device
//! takes possession of the window with that write, and hands it back with a response in the
//! header.

use crate::bytes::{get_le32, le32_at, le_bytes, put_le, splice};
use crate::dma::PAGE_SIZE64;
use crate::hwc::ChannelQueues;
use crate::regs::SHMEM_LEN;
use vstd::prelude::*;

verus! {

pub const SMC_MSG_TYPE_ESTABLISH_HWC: u32 = 1;

pub const SMC_MSG_TYPE_DESTROY_HWC: u32 = 2;

/// The query of a host-management client whether the device is ready.
pub const SMC_MSG_TYPE_HOST_MGMT_READY: u32 = 3;

pub const SMC_MSG_TYPE_REPORT_HWC_TIMEOUT: u32 = 4;

pub const SMC_MSG_TYPE_ESTABLISH_HWC_VERSION: u32 = 0;

pub const SMC_MSG_TYPE_DESTROY_HWC_VERSION: u32 = 0;

pub const SMC_MSG_TYPE_HOST_MGMT_READY_VERSION: u32 = 0;

pub const SMC_MSG_TYPE_REPORT_HWC_TIMEOUT_VERSION: u32 = 1;

/// Why a request was refused.
#[derive(Clone, Copy, Debug, PartialEq, Eq, Structural)]
pub enum SmcError {
    RequestIsResponse,
    UnsupportedVersion,
    HwcAlreadyActive,
    /// The queues of the channel could not be allocated.
    QueueAlloc,
    UnsupportedRequest(u32),
}

/// The fields of the header dword: the kind of message (bits 2:0), its version (bits 5:3), the
/// direction (bit 7), the status (bits 15:8), and who possesses the window (bit 31).
#[derive(Clone, Copy, Debug, PartialEq, Eq, Structural)]
pub struct SmcProtoHdr {
    pub raw: u32,
}

impl SmcProtoHdr {
    pub open spec fn msg_type_spec(self) -> u32 {
        self.raw % 8
    }

    pub open spec fn msg_version_spec(self) -> u32 {
        (self.raw / 8) % 8
    }

    pub open spec fn is_response_spec(self) -> bool {
        (self.raw / 0x80) % 2 == 1
    }

    pub open spec fn status_spec(self) -> u32 {
        (self.raw / 0x100) % 0x100
    }

    pub open spec fn owner_is_pf_spec(self) -> bool {
        self.raw >= 0x8000_0000
    }

    #[verifier::when_used_as_spec(msg_type_spec)]
    pub fn msg_type(self) -> (ret: u32)
        ensures
            ret == self.msg_type(),
    {
        self.raw % 8
    }

    #[verifier::when_used_as_spec(msg_version_spec)]
    pub fn msg_version(self) -> (ret: u32)
        ensures
            ret == self.msg_version(),
    {
        (self.raw / 8) % 8
    }

    #[verifier::when_used_as_spec(is_response_spec)]
    pub fn is_response(self) -> (ret: bool)
        ensures
            ret == self.is_response(),
    {
        (self.raw / 0x80) % 2 == 1
    }

    #[verifier::when_used_as_spec(status_spec)]
    pub fn status(self) -> (ret: u32)
        ensures
            ret == self.status(),
    {
        (self.raw / 0x100) % 0x100
    }

    #[verifier::when_used_as_spec(owner_is_pf_spec)]
    pub fn owner_is_pf(self) -> (ret: bool)
        ensures
            ret == self.owner_is_pf(),
    {
        self.raw >= 0x8000_0000
    }

    /// The header with the window in the device's possession.
    pub open spec fn possessed(self) -> SmcProtoHdr {
        if self.owner_is_pf() {
            self
        } else {
            SmcProtoHdr { raw: (self.raw + 0x8000_0000) as u32 }
        }
    }

    /// The header turned into a response with a status, and the window handed back.
    pub open spec fn answered(self, status: u8) -> SmcProtoHdr {
        let low = self.raw % 0x80;
        let high = (self.raw / 0x1_0000) % 0x8000;
        SmcProtoHdr { raw: (high * 0x1_0000 + status * 0x100 + 0x80 + low) as u32 }
    }

    pub fn take_possession(self) -> (ret: SmcProtoHdr)
        ensures
            ret == self.possessed(),
    {
        if self.owner_is_pf() {
            self
        } else {
            SmcProtoHdr { raw: self.raw + 0x8000_0000 }
        }
    }

    pub fn answer(self, status: u8) -> (ret: SmcProtoHdr)
        ensures
            ret == self.answered(status),
    {
        let low: u32 = self.raw % 0x80;
        let high: u32 = (self.raw / 0x1_0000) % 0x8000;
        SmcProtoHdr { raw: high * 0x1_0000 + status as u32 * 0x100 + 0x80 + low }
    }
}

/// Taking possession changes nothing but the possession.
pub proof fn possession_keeps_the_request(hdr: SmcProtoHdr)
    ensures
        hdr.possessed().owner_is_pf(),
        hdr.possessed().msg_type() == hdr.msg_type(),
        hdr.possessed().msg_version() == hdr.msg_version(),
        hdr.possessed().is_response() == hdr.is_response(),
        hdr.possessed().status() == hdr.status(),
{
    let raw = hdr.raw;
    let after = hdr.possessed().raw;
    assert(raw < 0x8000_0000 && after == raw + 0x8000_0000 ==> after % 8 == raw % 8 && (after / 8)
        % 8 == (raw / 8) % 8 && (after / 0x80) % 2 == (raw / 0x80) % 2 && (after / 0x100) % 0x100
        == (raw / 0x100) % 0x100) by (bit_vector);
}

/// An answer is a response with the status that was given, to the message that was asked, with the
/// window back in the guest's possession; the fields in between (bits 30:16 and 6) stay.
pub proof fn answer_keeps_the_message(hdr: SmcProtoHdr, status: u8)
    ensures
        hdr.answered(status).is_response(),
        hdr.answered(status).status() == status,
        !hdr.answered(status).owner_is_pf(),
        hdr.answered(status).msg_type() == hdr.msg_type(),
        hdr.answered(status).msg_version() == hdr.msg_version(),
        (hdr.answered(status).raw / 0x1_0000) % 0x8000 == (hdr.raw / 0x1_0000) % 0x8000,
        (hdr.answered(status).raw / 0x40) % 2 == (hdr.raw / 0x40) % 2,
{
    let raw = hdr.raw;
    let code = status as u32;
    let after = hdr.answered(status).raw;
    assert((after / 0x80) % 2 == 1 && (after / 0x100) % 0x100 == code && after < 0x8000_0000
        && after % 8 == raw % 8 && (after / 8) % 8 == (raw / 8) % 8 && (after / 0x1_0000) % 0x8000
        == (raw / 0x1_0000) % 0x8000 && (after / 0x40) % 2 == (raw / 0x40) % 2) by (bit_vector)
        requires
            after == ((raw / 0x1_0000) % 0x8000) * 0x1_0000 + code * 0x100 + 0x80 + raw % 0x80,
            code < 0x100,
    ;
}

/// A report that a request on the hardware channel timed out.
#[derive(Clone, Copy, Debug, PartialEq, Eq, Structural)]
pub struct HwcTimeout {
    pub rqt: u32,
    pub sqt: u32,
    pub cqn: u32,
    pub eqn: u32,
    pub wait_time: u32,
    pub cmd_failed: u32,
}

/// What a request asks for.
#[derive(Clone, Copy, Debug, PartialEq, Eq, Structural)]
pub enum SmcRequest {
    EstablishHwc(ChannelQueues),
    DestroyHwc,
    HostMgmtReady,
    ReportHwcTimeout(HwcTimeout),
}

/// The 48-bit number at position `i`, least significant byte first.
pub open spec fn le48_at(bytes: Seq<u8>, i: int) -> int {
    le32_at(bytes, i) + 0x1_0000_0000 * bytes[i + 4] + 0x100_0000_0000 * bytes[i + 5]
}

fn get_le48(bytes: &Vec<u8>, i: usize) -> (ret: u64)
    requires
        i + 6 <= bytes@.len(),
        i <= SHMEM_LEN,
    ensures
        ret == le48_at(bytes@, i as int),
        ret < 0x1_0000_0000_0000,
{
    get_le32(bytes.as_slice(), i) as u64 + 0x1_0000_0000 * bytes[i + 4] as u64 + 0x100_0000_0000
        * bytes[i + 5] as u64
}

/// The address of a queue in a request to establish a channel. A page number has 52 bits: its low
/// 48 bits are packed at `low`, and its high 4 bits are the nibble of the seventh dword that
/// `scale` selects.
pub open spec fn queue_gpa(shmem: Seq<u8>, low: int, scale: int) -> int {
    (le48_at(shmem, low) + 0x1_0000_0000_0000 * ((le32_at(shmem, 24) / scale) % 16)) * PAGE_SIZE64
}

/// The queues that a request to establish a channel names: event, completion, receive and send
/// queue in this order, with the interrupt of the event queue in the upper half of the seventh
/// dword.
pub open spec fn requested_queues(shmem: Seq<u8>) -> ChannelQueues {
    ChannelQueues {
        eq_gpa: queue_gpa(shmem, 0, 1) as u64,
        cq_gpa: queue_gpa(shmem, 6, 0x10) as u64,
        rq_gpa: queue_gpa(shmem, 12, 0x100) as u64,
        sq_gpa: queue_gpa(shmem, 18, 0x1000) as u64,
        eq_msix: (le32_at(shmem, 24) / 0x1_0000) as u32,
    }
}

pub open spec fn reported_timeout(shmem: Seq<u8>) -> HwcTimeout {
    HwcTimeout {
        rqt: le32_at(shmem, 0) as u32,
        sqt: le32_at(shmem, 4) as u32,
        cqn: le32_at(shmem, 8) as u32,
        eqn: le32_at(shmem, 12) as u32,
        wait_time: (le32_at(shmem, 24) % 0x100_0000) as u32,
        cmd_failed: ((le32_at(shmem, 24) / 0x100_0000) % 2) as u32,
    }
}

/// The header dword of the window.
pub open spec fn header_of(shmem: Seq<u8>) -> SmcProtoHdr {
    SmcProtoHdr { raw: le32_at(shmem, SHMEM_LEN - 4) as u32 }
}

/// The window with another header.
pub open spec fn with_header(shmem: Seq<u8>, hdr: SmcProtoHdr) -> Seq<u8> {
    splice(shmem, SHMEM_LEN - 4, le_bytes(hdr.raw as int, 4))
}

/// The verdict on the request in the window.
pub open spec fn smc_verdict(shmem: Seq<u8>, hwc_active: bool) -> Result<SmcRequest, SmcError> {
    let hdr = header_of(shmem);
    if hdr.is_response() {
        Err(SmcError::RequestIsResponse)
    } else if hdr.msg_type() == SMC_MSG_TYPE_ESTABLISH_HWC {
        if hdr.msg_version() != SMC_MSG_TYPE_ESTABLISH_HWC_VERSION {
            Err(SmcError::UnsupportedVersion)
        } else if hwc_active {
            Err(SmcError::HwcAlreadyActive)
        } else {
            Ok(SmcRequest::EstablishHwc(requested_queues(shmem)))
        }
    } else if hdr.msg_type() == SMC_MSG_TYPE_DESTROY_HWC {
        if hdr.msg_version() != SMC_MSG_TYPE_DESTROY_HWC_VERSION {
            Err(SmcError::UnsupportedVersion)
        } else {
            Ok(SmcRequest::DestroyHwc)
        }
    } else if hdr.msg_type() == SMC_MSG_TYPE_HOST_MGMT_READY {
        if hdr.msg_version() != SMC_MSG_TYPE_HOST_MGMT_READY_VERSION {
            Err(SmcError::UnsupportedVersion)
        } else {
            Ok(SmcRequest::HostMgmtReady)
        }
    } else if hdr.msg_type() == SMC_MSG_TYPE_REPORT_HWC_TIMEOUT {
        if hdr.msg_version() < SMC_MSG_TYPE_REPORT_HWC_TIMEOUT_VERSION {
            Err(SmcError::UnsupportedVersion)
        } else {
            Ok(SmcRequest::ReportHwcTimeout(reported_timeout(shmem)))
        }
    } else {
        Err(SmcError::UnsupportedRequest(hdr.msg_type()))
    }
}

/// A window that was rewritten with a header has that header.
pub proof fn header_reads_back(shmem: Seq<u8>, hdr: SmcProtoHdr)
    requires
        shmem.len() == SHMEM_LEN,
    ensures
        with_header(shmem, hdr).len() == SHMEM_LEN,
        header_of(with_header(shmem, hdr)) == hdr,
        forall|i: int|
            0 <= i < SHMEM_LEN - 4 ==> #[trigger] with_header(shmem, hdr)[i] == shmem[i],
{
    crate::bytes::le_bytes_len(hdr.raw as int, 4);
    crate::bytes::le_bytes_read_back(hdr.raw as int);
}

/// The queues that any request names lie on page boundaries, so that a channel can be set up over
/// them.
pub proof fn requested_queues_are_aligned(shmem: Seq<u8>)
    requires
        shmem.len() == SHMEM_LEN,
    ensures
        requested_queues(shmem).aligned(),
        forall|low: int, scale: int|
            0 <= low <= 18 && scale > 0 ==> 0 <= #[trigger] queue_gpa(shmem, low, scale)
                <= u64::MAX,
{
    assert forall|low: int, scale: int| 0 <= low <= 18 && scale > 0 implies 0
        <= #[trigger] queue_gpa(shmem, low, scale) <= u64::MAX by {
        let nibble = (le32_at(shmem, 24) / scale) % 16;
        assert(0 <= nibble < 16) by (nonlinear_arith)
            requires
                nibble == (le32_at(shmem, 24) / scale) % 16,
        ;
    }
    assert(0 <= queue_gpa(shmem, 0, 1) <= u64::MAX);
    assert(0 <= queue_gpa(shmem, 6, 0x10) <= u64::MAX);
    assert(0 <= queue_gpa(shmem, 12, 0x100) <= u64::MAX);
    assert(0 <= queue_gpa(shmem, 18, 0x1000) <= u64::MAX);
}

/// The address of a queue in a request to establish a channel.
fn read_queue_gpa(shmem: &Vec<u8>, low: usize, scale: u32) -> (ret: u64)
    requires
        shmem@.len() == SHMEM_LEN,
        low <= 18,
        scale > 0,
    ensures
        ret == queue_gpa(shmem@, low as int, scale as int),
{
    let low_bits: u64 = get_le48(shmem, low);
    let nibble: u64 = ((get_le32(shmem.as_slice(), 24) / scale) % 16) as u64;
    (low_bits + 0x1_0000_0000_0000 * nibble) * PAGE_SIZE64
}

/// Judges the request in the window.
pub fn read_smc(shmem: &Vec<u8>, hwc_active: bool) -> (ret: Result<SmcRequest, SmcError>)
    requires
        shmem@.len() == SHMEM_LEN,
    ensures
        ret == smc_verdict(shmem@, hwc_active),
{
    let hdr = SmcProtoHdr { raw: get_le32(shmem.as_slice(), SHMEM_LEN - 4) };
    if hdr.is_response() {
        return Err(SmcError::RequestIsResponse);
    }
    let ty: u32 = hdr.msg_type();
    if ty == SMC_MSG_TYPE_ESTABLISH_HWC {
        if hdr.msg_version() != SMC_MSG_TYPE_ESTABLISH_HWC_VERSION {
            return Err(SmcError::UnsupportedVersion);
        }
        if hwc_active {
            return Err(SmcError::HwcAlreadyActive);
        }
        Ok(
            SmcRequest::EstablishHwc(
                ChannelQueues {
                    eq_gpa: read_queue_gpa(shmem, 0, 1),
                    cq_gpa: read_queue_gpa(shmem, 6, 0x10),
                    rq_gpa: read_queue_gpa(shmem, 12, 0x100),
                    sq_gpa: read_queue_gpa(shmem, 18, 0x1000),
                    eq_msix: get_le32(shmem.as_slice(), 24) / 0x1_0000,
                },
            ),
        )
    } else if ty == SMC_MSG_TYPE_DESTROY_HWC {
        if hdr.msg_version() != SMC_MSG_TYPE_DESTROY_HWC_VERSION {
            return Err(SmcError::UnsupportedVersion);
        }
        Ok(SmcRequest::DestroyHwc)
    } else if ty == SMC_MSG_TYPE_HOST_MGMT_READY {
        if hdr.msg_version() != SMC_MSG_TYPE_HOST_MGMT_READY_VERSION {
            return Err(SmcError::UnsupportedVersion);
        }
        Ok(SmcRequest::HostMgmtReady)
    } else if ty == SMC_MSG_TYPE_REPORT_HWC_TIMEOUT {
        if hdr.msg_version() < SMC_MSG_TYPE_REPORT_HWC_TIMEOUT_VERSION {
            return Err(SmcError::UnsupportedVersion);
        }
        let flags_wait: u32 = get_le32(shmem.as_slice(), 24);
        Ok(
            SmcRequest::ReportHwcTimeout(
                HwcTimeout {
                    rqt: get_le32(shmem.as_slice(), 0),
                    sqt: get_le32(shmem.as_slice(), 4),
                    cqn: get_le32(shmem.as_slice(), 8),
                    eqn: get_le32(shmem.as_slice(), 12),
                    wait_time: flags_wait % 0x100_0000,
                    cmd_failed: (flags_wait / 0x100_0000) % 2,
                },
            ),
        )
    } else {
        Err(SmcError::UnsupportedRequest(ty))
    }
}

/// Marks the window as possessed by the device.
pub fn possess(shmem: &mut Vec<u8>)
    requires
        old(shmem)@.len() == SHMEM_LEN,
    ensures
        final(shmem)@ == with_header(old(shmem)@, header_of(old(shmem)@).possessed()),
        final(shmem)@.len() == SHMEM_LEN,
{
    let hdr = SmcProtoHdr { raw: get_le32(shmem.as_slice(), SHMEM_LEN - 4) };
    put_le(shmem, SHMEM_LEN - 4, hdr.take_possession().raw as u64, 4);
}

/// Answers the request in the window and hands the window back.
pub fn complete_smc(shmem: &mut Vec<u8>, status: u8)
    requires
        old(shmem)@.len() == SHMEM_LEN,
    ensures
        final(shmem)@ == with_header(old(shmem)@, header_of(old(shmem)@).answered(status)),
        final(shmem)@.len() == SHMEM_LEN,
{
    let hdr = SmcProtoHdr { raw: get_le32(shmem.as_slice(), SHMEM_LEN - 4) };
    put_le(shmem, SHMEM_LEN - 4, hdr.answer(status).raw as u64, 4);
}

} // verus!
