//! The device as the guest sees it: its identity on the bus, its registers, and its reset.

use crate::bnic::{endpoints_to_stop, new_nic, torn_down, BasicNic, BnicConfig, NicView};
use crate::bnic::{VportConfig, VportView};
use crate::bytes::{copy_bytes, get_le64, le64_at, splice, write_bytes, zero_bytes, zeroes};
use crate::channel::{ChannelView, HwcChannel};
use crate::hwc::{ChannelQueues, Devices, QueueLimits};
use crate::range::{range_contains, ranges_overlap, ContainsRange};
use crate::regs::{block_of, build_pf_cap_regs, build_pf_desc, build_pf_regs};
use crate::regs::{build_pf_sriov_zone, build_regmap, pf_cap_fields, pf_desc_fields};
use crate::regs::{pf_regs_fields, pf_sriov_fields, regmap_fields};
use crate::regs::{BAR0_LEN, DOORBELLS_LEN, DOORBELLS_START, PF_CAP_REGS_LEN, PF_CAP_ZONE_START};
use crate::regs::{PF_DESC_LEN, PF_REGS_LEN, PF_REGS_START, PF_SRIOV_SHMEM_START};
use crate::regs::{PF_SRIOV_ZONE_LEN, PF_SRIOV_ZONE_START, REGMAP_LEN, SHMEM_LEN, SHMEM_START};
use crate::save_restore::SaveError;
use crate::smc::{complete_smc, header_of, possess, read_smc, smc_verdict, with_header};
use crate::smc::{HwcTimeout, SmcError, SmcRequest};
use std::ops::Range;
use vstd::prelude::*;

verus! {

pub const VENDOR_ID: u16 = 0x1414;

/// The device id of a virtual function.
pub const DEVICE_ID: u16 = 0x00ba;

/// The device id of a physical function.
pub const PF_DEVICE_ID: u16 = 0x00b9;

/// The BAR with the interrupt table.
pub const MSIX_BAR: u8 = 4;

/// How many interrupts the device has.
pub const MSIX_COUNT: u16 = 64;

pub const DB_SQ: usize = 0x0;

pub const DB_RQ: usize = 0x400;

pub const DB_RQ_CLIENT_DATA: usize = 0x408;

pub const DB_CQ: usize = 0x800;

pub const DB_EQ: usize = 0xff8;

/// How the device presents itself on the bus. It is an Ethernet controller with the programming
/// interface of its family.
#[derive(Clone, Copy, Debug, PartialEq, Eq, Structural)]
pub struct PciIdentity {
    pub vendor_id: u16,
    pub device_id: u16,
    pub revision_id: u8,
    pub sub_vendor_id: u16,
    pub sub_system_id: u16,
    /// The length of the BAR with the registers, which is the first one.
    pub bar0_len: usize,
    /// The BAR with the interrupt table.
    pub msix_bar: u8,
    /// How many interrupts the device has.
    pub msix_count: u16,
    /// Whether the device has an SR-IOV extended capability, without which a privileged client
    /// does not start. It advertises no virtual functions.
    pub sriov: bool,
}

/// The identity of a device with a configuration.
pub open spec fn identity_of(config: BnicConfig) -> PciIdentity {
    PciIdentity {
        vendor_id: VENDOR_ID,
        device_id: if config.bm_hostmode || config.pf_caps {
            PF_DEVICE_ID
        } else {
            DEVICE_ID
        },
        revision_id: 1,
        sub_vendor_id: 0,
        sub_system_id: 0,
        bar0_len: BAR0_LEN,
        msix_bar: MSIX_BAR,
        msix_count: MSIX_COUNT,
        sriov: config.pf_caps,
    }
}

/// A doorbell that the guest rang.
#[derive(Clone, Copy, Debug, PartialEq, Eq, Structural)]
pub enum Doorbell {
    Sq(u64),
    Rq(u64),
    /// Rung without effect.
    RqClientData,
    Cq(u64),
    Eq(u64),
    /// There is no doorbell at this offset.
    Unknown,
}

/// The doorbell at an offset of the doorbell page.
pub open spec fn doorbell_at(offset: int, value: u64) -> Doorbell {
    if offset == DB_SQ {
        Doorbell::Sq(value)
    } else if offset == DB_RQ {
        Doorbell::Rq(value)
    } else if offset == DB_RQ_CLIENT_DATA {
        Doorbell::RqClientData
    } else if offset == DB_CQ {
        Doorbell::Cq(value)
    } else if offset == DB_EQ {
        Doorbell::Eq(value)
    } else {
        Doorbell::Unknown
    }
}

/// What a register write asks for.
#[derive(Clone, Copy, Debug, PartialEq, Eq, Structural)]
pub enum RegAction {
    /// Nothing.
    Done,
    /// Nothing: there is no such register.
    BadWrite,
    Ring(Doorbell),
    /// Set up a channel over these queues, and report how that went.
    Establish(ChannelQueues),
    /// Begin to stop the channel.
    StopHwc,
    /// Nothing: the guest reported a timeout.
    Timeout(HwcTimeout),
    /// Nothing: the request was refused.
    Refused(SmcError),
}

/// The device.
pub struct GdmaDevice {
    pub config: BnicConfig,
    pub limits: QueueLimits,
    pub regmap: Vec<u8>,
    pub shmem: Vec<u8>,
    /// Where the shared-memory window starts.
    pub shmem_start: usize,
    /// Whether the guest asked for the channel to be destroyed and it has not stopped yet.
    pub destroying_hwc: bool,
    /// The established channel.
    pub hwc: Option<HwcChannel>,
    pub devices: Devices,
    /// Whether a function-level reset is under way.
    pub flr_draining: bool,
    /// The registers of a bare-metal physical function.
    pub pf_regs: Option<Vec<u8>>,
    /// The region-descriptor table of a privileged client, which shadows the map of a virtual
    /// function.
    pub pf_desc: Option<Vec<u8>>,
    pub pf_sriov_zone: Option<Vec<u8>>,
    pub pf_cap_regs: Option<Vec<u8>>,
}

/// What a [`GdmaDevice`] holds.
pub struct DeviceView {
    pub config: BnicConfig,
    pub limits: QueueLimits,
    pub shmem: Seq<u8>,
    pub destroying_hwc: bool,
    pub hwc: Option<ChannelView>,
    pub bnic: NicView,
    pub flr_draining: bool,
}

impl View for GdmaDevice {
    type V = DeviceView;

    open spec fn view(&self) -> DeviceView {
        DeviceView {
            config: self.config,
            limits: self.limits,
            shmem: self.shmem@,
            destroying_hwc: self.destroying_hwc,
            hwc: match self.hwc {
                Some(hwc) => Some(hwc@),
                None => None,
            },
            bnic: self.devices.bnic@,
            flr_draining: self.flr_draining,
        }
    }
}

/// The shared-memory window of a device with a configuration: a privileged client finds it through
/// the SR-IOV zone.
pub open spec fn shmem_start_of(config: BnicConfig) -> usize {
    if config.pf_caps {
        PF_SRIOV_SHMEM_START
    } else {
        SHMEM_START
    }
}

/// Whether an access lies within the region at `start` of length `len`.
pub open spec fn hits(start: usize, len: usize, offset: usize, access: nat) -> bool {
    range_contains(
        Range { start, end: (start + len) as usize },
        Range { start: offset, end: (offset + access) as usize },
    )
}

/// Where a read is served from.
pub enum ReadSource {
    Descriptors,
    SharedMemory,
    RegisterMap,
    PhysicalFunction,
    Capabilities,
    SriovZone,
    Nothing,
}

/// Where a read of a device with a configuration is served from. The descriptor table shadows the
/// map of a virtual function.
pub open spec fn read_source(config: BnicConfig, offset: usize, len: nat) -> ReadSource {
    if config.pf_caps && hits(0, PF_DESC_LEN, offset, len) {
        ReadSource::Descriptors
    } else if hits(shmem_start_of(config), SHMEM_LEN, offset, len) {
        ReadSource::SharedMemory
    } else if !config.pf_caps && hits(0, REGMAP_LEN, offset, len) {
        ReadSource::RegisterMap
    } else if config.bm_hostmode && hits(PF_REGS_START, PF_REGS_LEN, offset, len) {
        ReadSource::PhysicalFunction
    } else if config.pf_caps && hits(PF_CAP_ZONE_START, PF_CAP_REGS_LEN, offset, len) {
        ReadSource::Capabilities
    } else if config.pf_caps && hits(PF_SRIOV_ZONE_START, PF_SRIOV_ZONE_LEN, offset, len) {
        ReadSource::SriovZone
    } else {
        ReadSource::Nothing
    }
}

/// Bytes that read as all ones.
pub open spec fn all_ones(len: nat) -> Seq<u8> {
    Seq::new(len, |i: int| 0xffu8)
}

impl DeviceView {
    /// The state after the guest's read of shared memory found the channel that it asked to have
    /// destroyed stopped: the request is answered.
    pub open spec fn poll_destroyed(self, hwc_stopped: bool) -> DeviceView {
        if self.destroying_hwc && hwc_stopped {
            DeviceView {
                hwc: None,
                destroying_hwc: false,
                shmem: with_header(self.shmem, header_of(self.shmem).answered(0)),
                ..self
            }
        } else {
            self
        }
    }

    /// The state after a read.
    pub open spec fn after_read(self, offset: usize, len: nat, hwc_stopped: bool) -> DeviceView {
        if read_source(self.config, offset, len) is SharedMemory {
            self.poll_destroyed(hwc_stopped)
        } else {
            self
        }
    }

    /// The state after a channel was set up, or could not be.
    pub open spec fn after_establish(self, hwc: Option<ChannelView>) -> DeviceView {
        match hwc {
            Some(hwc) => DeviceView { hwc: Some(hwc), ..self.answered(0) },
            None => self.answered(1),
        }
    }

    /// What a read returns.
    pub open spec fn read(self, offset: usize, len: nat) -> Seq<u8> {
        let block = match read_source(self.config, offset, len) {
            ReadSource::Descriptors => (0int, block_of(PF_DESC_LEN as nat, pf_desc_fields())),
            ReadSource::SharedMemory => (shmem_start_of(self.config) as int, self.shmem),
            ReadSource::RegisterMap => (
                0int,
                block_of(REGMAP_LEN as nat, regmap_fields(shmem_start_of(self.config))),
            ),
            ReadSource::PhysicalFunction => (
                PF_REGS_START as int,
                block_of(PF_REGS_LEN as nat, pf_regs_fields()),
            ),
            ReadSource::Capabilities => (
                PF_CAP_ZONE_START as int,
                block_of(PF_CAP_REGS_LEN as nat, pf_cap_fields(self.limits)),
            ),
            ReadSource::SriovZone => (
                PF_SRIOV_ZONE_START as int,
                block_of(PF_SRIOV_ZONE_LEN as nat, pf_sriov_fields()),
            ),
            ReadSource::Nothing => (offset as int, all_ones(len)),
        };
        block.1.subrange(offset - block.0, offset - block.0 + len)
    }

    /// The state after a request in the window was answered.
    pub open spec fn answered(self, status: u8) -> DeviceView {
        DeviceView { shmem: with_header(self.shmem, header_of(self.shmem).answered(status)), ..self }
    }

    /// Writing into the shared-memory window: a write that reaches the header dword hands the
    /// window to the device, which services the request.
    pub open spec fn write_shmem(self, at: usize, data: Seq<u8>) -> (DeviceView, RegAction) {
        let shmem = splice(self.shmem, at as int, data);
        if !ranges_overlap(
            Range { start: (SHMEM_LEN - 4) as usize, end: SHMEM_LEN },
            Range { start: at, end: (at + data.len()) as usize },
        ) {
            (DeviceView { shmem, ..self }, RegAction::Done)
        } else {
            let held = DeviceView {
                shmem: with_header(shmem, header_of(shmem).possessed()),
                ..self
            };
            match smc_verdict(held.shmem, self.hwc is Some) {
                Err(err) => (held.answered(1), RegAction::Refused(err)),
                Ok(SmcRequest::EstablishHwc(queues)) => (held, RegAction::Establish(queues)),
                Ok(SmcRequest::DestroyHwc) => (
                    DeviceView { destroying_hwc: true, ..held },
                    RegAction::StopHwc,
                ),
                Ok(SmcRequest::HostMgmtReady) => (held.answered(0), RegAction::Done),
                Ok(SmcRequest::ReportHwcTimeout(timeout)) => (
                    held.answered(0),
                    RegAction::Timeout(timeout),
                ),
            }
        }
    }

    /// A register write: the state after it, and what it asks for.
    pub open spec fn write(self, offset: usize, data: Seq<u8>) -> (DeviceView, RegAction) {
        let start = shmem_start_of(self.config);
        if hits(start, SHMEM_LEN, offset, data.len()) {
            self.write_shmem((offset - start) as usize, data)
        } else if hits(DOORBELLS_START, DOORBELLS_LEN, offset, data.len()) && data.len() == 8 {
            (
                self,
                RegAction::Ring(
                    doorbell_at(offset - DOORBELLS_START, le64_at(data, 0) as u64),
                ),
            )
        } else {
            (self, RegAction::BadWrite)
        }
    }

    /// The state after a reset: as new, but for the network client's handles, which are not given
    /// out again.
    pub open spec fn after_reset(self) -> DeviceView {
        DeviceView {
            shmem: zero_bytes(SHMEM_LEN as nat),
            destroying_hwc: false,
            hwc: None,
            bnic: self.bnic.shut_down(),
            ..self
        }
    }
}

/// A device as it is when it is new: without a channel, and with an empty shared-memory window.
pub open spec fn new_device(
    limits: QueueLimits,
    vports: Seq<VportConfig>,
    config: BnicConfig,
) -> DeviceView {
    DeviceView {
        config,
        limits,
        shmem: zero_bytes(SHMEM_LEN as nat),
        destroying_hwc: false,
        hwc: None,
        bnic: new_nic(vports, config),
        flr_draining: false,
    }
}

/// A copy of a part of a register block.
fn part_of_block(block: &Vec<u8>, start: usize, offset: usize, len: usize) -> (ret: Vec<u8>)
    requires
        start <= offset,
        offset - start + len <= block@.len(),
    ensures
        ret@ == block@.subrange(offset - start, offset - start + len),
{
    copy_bytes(block.as_slice(), offset - start, len)
}

fn region(start: usize, len: usize) -> (ret: Range<usize>)
    requires
        start + len <= usize::MAX,
    ensures
        ret == (Range { start, end: (start + len) as usize }),
{
    Range { start, end: start + len }
}

impl GdmaDevice {
    /// The register blocks are those of the configuration.
    pub open spec fn wf(&self) -> bool {
        &&& self.shmem@.len() == SHMEM_LEN
        &&& self.shmem_start == shmem_start_of(self.config)
        &&& self.regmap@ == block_of(REGMAP_LEN as nat, regmap_fields(self.shmem_start))
        &&& self.regmap@.len() == REGMAP_LEN
        &&& (self.pf_desc is Some) == self.config.pf_caps
        &&& (self.pf_sriov_zone is Some) == self.config.pf_caps
        &&& (self.pf_cap_regs is Some) == self.config.pf_caps
        &&& (self.pf_regs is Some) == self.config.bm_hostmode
        &&& self.pf_desc matches Some(block) ==> block@ == block_of(
            PF_DESC_LEN as nat,
            pf_desc_fields(),
        ) && block@.len() == PF_DESC_LEN
        &&& self.pf_sriov_zone matches Some(block) ==> block@ == block_of(
            PF_SRIOV_ZONE_LEN as nat,
            pf_sriov_fields(),
        ) && block@.len() == PF_SRIOV_ZONE_LEN
        &&& self.pf_cap_regs matches Some(block) ==> block@ == block_of(
            PF_CAP_REGS_LEN as nat,
            pf_cap_fields(self.limits),
        ) && block@.len() == PF_CAP_REGS_LEN
        &&& self.pf_regs matches Some(block) ==> block@ == block_of(
            PF_REGS_LEN as nat,
            pf_regs_fields(),
        ) && block@.len() == PF_REGS_LEN
        &&& self.hwc matches Some(hwc) ==> hwc.wf()
    }

    /// Whether nothing that a register access leaves alone has changed.
    pub open spec fn same_registers(&self, other: &GdmaDevice) -> bool {
        &&& self.config == other.config
        &&& self.limits == other.limits
        &&& self.shmem_start == other.shmem_start
        &&& self.regmap == other.regmap
        &&& self.pf_regs == other.pf_regs
        &&& self.pf_desc == other.pf_desc
        &&& self.pf_sriov_zone == other.pf_sriov_zone
        &&& self.pf_cap_regs == other.pf_cap_regs
    }

    /// A device with the default configuration.
    pub fn new(limits: QueueLimits, vports: Vec<VportConfig>) -> (ret: Self)
        requires
            vports@.len() > 0,
            forall|i: int| 0 <= i < vports@.len() ==> (#[trigger] vports@[i]).is_ordered,
        ensures
            ret.wf(),
            ret@ == new_device(
                limits,
                vports@,
                BnicConfig { adapter_link_speed_mbps: 0, bm_hostmode: false, pf_caps: false },
            ),
    {
        GdmaDevice::new_with_config(limits, vports, BnicConfig::default())
    }

    /// A device with a configuration.
    ///
    /// In bare-metal-host mode it exposes the registers of a physical function beside the map of
    /// a virtual function. With capability registers it serves a descriptor table at the base of
    /// the BAR, which shadows that map, a capability zone, and an SR-IOV zone that leads to the
    /// relocated shared-memory window.
    pub fn new_with_config(
        limits: QueueLimits,
        vports: Vec<VportConfig>,
        bnic_config: BnicConfig,
    ) -> (ret: Self)
        requires
            vports@.len() > 0,
            forall|i: int| 0 <= i < vports@.len() ==> (#[trigger] vports@[i]).is_ordered,
        ensures
            ret.wf(),
            ret@ == new_device(limits, vports@, bnic_config),
    {
        let bm_hostmode = bnic_config.bm_hostmode;
        let pf_caps = bnic_config.pf_caps;
        let shmem_start: usize = if pf_caps {
            PF_SRIOV_SHMEM_START
        } else {
            SHMEM_START
        };
        proof {
            crate::regs::block_of_has_its_length(REGMAP_LEN as nat, regmap_fields(shmem_start));
            crate::regs::block_of_has_its_length(PF_REGS_LEN as nat, pf_regs_fields());
            crate::regs::block_of_has_its_length(PF_DESC_LEN as nat, pf_desc_fields());
            crate::regs::block_of_has_its_length(PF_SRIOV_ZONE_LEN as nat, pf_sriov_fields());
            crate::regs::block_of_has_its_length(PF_CAP_REGS_LEN as nat, pf_cap_fields(limits));
        }
        let pf_regs = if bm_hostmode {
            Some(build_pf_regs())
        } else {
            None
        };
        let pf_desc = if pf_caps {
            Some(build_pf_desc())
        } else {
            None
        };
        let pf_sriov_zone = if pf_caps {
            Some(build_pf_sriov_zone())
        } else {
            None
        };
        let pf_cap_regs = if pf_caps {
            Some(build_pf_cap_regs(&limits))
        } else {
            None
        };
        let devices = Devices { bnic: BasicNic::new(vports, bnic_config) };
        GdmaDevice {
            config: bnic_config,
            limits,
            regmap: build_regmap(shmem_start),
            shmem: zeroes(SHMEM_LEN),
            shmem_start,
            destroying_hwc: false,
            hwc: None,
            devices,
            flr_draining: false,
            pf_regs,
            pf_desc,
            pf_sriov_zone,
            pf_cap_regs,
        }
    }

    /// How the device presents itself on the bus.
    pub fn identity(&self) -> (ret: PciIdentity)
        ensures
            ret == identity_of(self@.config),
    {
        PciIdentity {
            vendor_id: VENDOR_ID,
            device_id: if self.config.bm_hostmode || self.config.pf_caps {
                PF_DEVICE_ID
            } else {
                DEVICE_ID
            },
            revision_id: 1,
            sub_vendor_id: 0,
            sub_system_id: 0,
            bar0_len: BAR0_LEN,
            msix_bar: MSIX_BAR,
            msix_count: MSIX_COUNT,
            sriov: self.config.pf_caps,
        }
    }

    /// Whether a read looks for the end of a channel that is being destroyed.
    pub fn polls_hwc_stop(&self, offset: usize, len: usize) -> (ret: bool)
        requires
            self.wf(),
            offset + len <= usize::MAX,
        ensures
            ret == (self@.destroying_hwc && read_source(
                self@.config,
                offset,
                len as nat,
            ) is SharedMemory),
    {
        let range = region(offset, len);
        self.destroying_hwc && !(self.config.pf_caps && region(0, PF_DESC_LEN).contains_range(
            &range,
        )) && region(self.shmem_start, SHMEM_LEN).contains_range(&range)
    }

    fn read_shmem(&mut self, offset: usize, len: usize, hwc_stopped: bool) -> (ret: Vec<u8>)
        requires
            old(self).wf(),
            offset + len <= SHMEM_LEN,
        ensures
            final(self).wf(),
            final(self).same_registers(old(self)),
            final(self)@ == old(self)@.poll_destroyed(hwc_stopped),
            ret@ == final(self)@.shmem.subrange(offset as int, offset + len),
    {
        // A pending request to destroy the channel is answered once the channel has stopped.
        if self.destroying_hwc && hwc_stopped {
            self.hwc = None;
            self.destroying_hwc = false;
            complete_smc(&mut self.shmem, 0);
        }
        copy_bytes(self.shmem.as_slice(), offset, len)
    }

    /// Reads registers. `hwc_stopped` tells whether the channel has stopped, where the read looks
    /// for that.
    pub fn read_reg(&mut self, offset: usize, len: usize, hwc_stopped: bool) -> (ret: Vec<u8>)
        requires
            old(self).wf(),
            offset + len <= usize::MAX,
        ensures
            final(self).wf(),
            final(self).same_registers(old(self)),
            final(self)@ == if read_source(
                old(self)@.config,
                offset,
                len as nat,
            ) is SharedMemory {
                old(self)@.poll_destroyed(hwc_stopped)
            } else {
                old(self)@
            },
            final(self)@ == old(self)@.after_read(offset, len as nat, hwc_stopped),
            ret@ == final(self)@.read(offset, len as nat),
    {
        let range = region(offset, len);
        if let Some(desc) = &self.pf_desc {
            // The descriptor table shadows the map of a virtual function.
            if region(0, PF_DESC_LEN).contains_range(&range) {
                return part_of_block(desc, 0, offset, len);
            }
        }
        if region(self.shmem_start, SHMEM_LEN).contains_range(&range) {
            let base: usize = self.shmem_start;
            return self.read_shmem(offset - base, len, hwc_stopped);
        }
        if self.pf_desc.is_none() && region(0, REGMAP_LEN).contains_range(&range) {
            return part_of_block(&self.regmap, 0, offset, len);
        }
        if let Some(pf) = &self.pf_regs {
            if region(PF_REGS_START, PF_REGS_LEN).contains_range(&range) {
                return part_of_block(pf, PF_REGS_START, offset, len);
            }
        }
        if let Some(caps) = &self.pf_cap_regs {
            if region(PF_CAP_ZONE_START, PF_CAP_REGS_LEN).contains_range(&range) {
                return part_of_block(caps, PF_CAP_ZONE_START, offset, len);
            }
        }
        if let Some(sriov) = &self.pf_sriov_zone {
            if region(PF_SRIOV_ZONE_START, PF_SRIOV_ZONE_LEN).contains_range(&range) {
                return part_of_block(sriov, PF_SRIOV_ZONE_START, offset, len);
            }
        }
        let ones: Vec<u8> = vec![0xffu8; len];
        assert(ones@ =~= all_ones(len as nat).subrange(0, len as int));
        ones
    }

    /// Services the request in the shared-memory window.
    fn handle_smc(&mut self) -> (ret: RegAction)
        requires
            old(self).wf(),
        ensures
            final(self).wf(),
            final(self).same_registers(old(self)),
            ({
                let held = old(self)@;
                match smc_verdict(held.shmem, held.hwc is Some) {
                    Err(err) => final(self)@ == held.answered(1) && ret == RegAction::Refused(err),
                    Ok(SmcRequest::EstablishHwc(queues)) => final(self)@ == held && ret
                        == RegAction::Establish(queues),
                    Ok(SmcRequest::DestroyHwc) => final(self)@ == (DeviceView {
                        destroying_hwc: true,
                        ..held
                    }) && ret == RegAction::StopHwc,
                    Ok(SmcRequest::HostMgmtReady) => final(self)@ == held.answered(0) && ret
                        == RegAction::Done,
                    Ok(SmcRequest::ReportHwcTimeout(timeout)) => final(self)@ == held.answered(0)
                        && ret == RegAction::Timeout(timeout),
                }
            }),
    {
        match read_smc(&self.shmem, self.hwc.is_some()) {
            Err(err) => {
                complete_smc(&mut self.shmem, 1);
                RegAction::Refused(err)
            },
            Ok(SmcRequest::EstablishHwc(queues)) => RegAction::Establish(queues),
            Ok(SmcRequest::DestroyHwc) => {
                // When the guest reads shared memory, it is polled whether the channel has
                // stopped yet.
                self.destroying_hwc = true;
                RegAction::StopHwc
            },
            Ok(SmcRequest::HostMgmtReady) => {
                complete_smc(&mut self.shmem, 0);
                RegAction::Done
            },
            Ok(SmcRequest::ReportHwcTimeout(timeout)) => {
                complete_smc(&mut self.shmem, 0);
                RegAction::Timeout(timeout)
            },
        }
    }

    fn write_shmem(&mut self, offset: usize, data: &[u8]) -> (ret: RegAction)
        requires
            old(self).wf(),
            offset + data@.len() <= SHMEM_LEN,
        ensures
            final(self).wf(),
            final(self).same_registers(old(self)),
            final(self)@ == old(self)@.write_shmem(offset, data@).0,
            ret == old(self)@.write_shmem(offset, data@).1,
    {
        write_bytes(&mut self.shmem, offset, data);
        if region(SHMEM_LEN - 4, 4).overlaps_range(&region(offset, data.len())) {
            // Holding possession keeps the guest polling while a request is serviced
            // asynchronously, instead of reading the bare request header as the response.
            possess(&mut self.shmem);
            self.handle_smc()
        } else {
            RegAction::Done
        }
    }

    fn write_doorbell(offset: usize, value: u64) -> (ret: Doorbell)
        ensures
            ret == doorbell_at(offset as int, value),
    {
        if offset == DB_SQ {
            Doorbell::Sq(value)
        } else if offset == DB_RQ {
            Doorbell::Rq(value)
        } else if offset == DB_RQ_CLIENT_DATA {
            Doorbell::RqClientData
        } else if offset == DB_CQ {
            Doorbell::Cq(value)
        } else if offset == DB_EQ {
            Doorbell::Eq(value)
        } else {
            Doorbell::Unknown
        }
    }

    /// Writes registers.
    pub fn write_reg(&mut self, offset: usize, data: &[u8]) -> (ret: RegAction)
        requires
            old(self).wf(),
            offset + data@.len() <= usize::MAX,
        ensures
            final(self).wf(),
            final(self).same_registers(old(self)),
            final(self)@ == old(self)@.write(offset, data@).0,
            ret == old(self)@.write(offset, data@).1,
    {
        let range = region(offset, data.len());
        if region(self.shmem_start, SHMEM_LEN).contains_range(&range) {
            let base: usize = self.shmem_start;
            self.write_shmem(offset - base, data)
        } else if region(DOORBELLS_START, DOORBELLS_LEN).contains_range(&range) && data.len() == 8 {
            RegAction::Ring(
                GdmaDevice::write_doorbell(offset - DOORBELLS_START, get_le64(data, 0)),
            )
        } else {
            RegAction::BadWrite
        }
    }

    /// Concludes a request to establish a channel: `hwc` is the channel, or `None` if its queues
    /// could not be allocated.
    pub fn established(&mut self, hwc: Option<HwcChannel>) -> (ret: Result<(), SmcError>)
        requires
            old(self).wf(),
            old(self)@.hwc is None,
            hwc matches Some(hwc) ==> hwc.wf(),
        ensures
            final(self).wf(),
            final(self).same_registers(old(self)),
            final(self)@ == match hwc {
                Some(hwc) => DeviceView { hwc: Some(hwc@), ..old(self)@.answered(0) },
                None => old(self)@.answered(1),
            },
            final(self)@ == old(self)@.after_establish(
                match hwc {
                    Some(hwc) => Some(hwc@),
                    None => None,
                },
            ),
            ret == if hwc is Some {
                Ok::<(), SmcError>(())
            } else {
                Err::<(), SmcError>(SmcError::QueueAlloc)
            },
    {
        let (status, ret): (u8, Result<(), SmcError>) = if hwc.is_some() {
            (0, Ok(()))
        } else {
            (1, Err(SmcError::QueueAlloc))
        };
        self.hwc = hwc;
        complete_smc(&mut self.shmem, status);
        ret
    }

    /// Returns the device to its freshly-constructed state, so that the guest can establish a
    /// channel again even if it went away without destroying the last one. Tells of each vport
    /// whether its endpoint is to be stopped; the queues are to be freed as well.
    pub fn reset(&mut self) -> (ret: Vec<bool>)
        requires
            old(self).wf(),
        ensures
            final(self).wf(),
            final(self).same_registers(old(self)),
            final(self)@ == old(self)@.after_reset(),
            ret@ == old(self)@.bnic.vports.map_values(|vport: VportView| vport.tasks > 0),
            ret@ == endpoints_to_stop(old(self)@.bnic.vports),
    {
        let stopped = self.devices.bnic.shutdown();
        self.hwc = None;
        self.destroying_hwc = false;
        self.shmem = zeroes(SHMEM_LEN);
        stopped
    }
}

impl GdmaDevice {
    /// The device's state cannot be saved: a saved machine leaves the device out.
    pub fn save(&mut self) -> (ret: Result<(), SaveError>)
        ensures
            ret == Err::<(), SaveError>(SaveError::NotSupported),
            *final(self) == *old(self),
    {
        Err(SaveError::NotSupported)
    }
}

/// What is next in a function-level reset.
#[derive(Clone, Copy, Debug, PartialEq, Eq, Structural)]
pub enum FlrStep {
    /// None is under way.
    Idle,
    /// The channel or a data path task has not stopped yet. The endpoints of the first `endpoints`
    /// vports are to be stopped.
    Pending { endpoints: usize },
    /// The device is reset: stop every endpoint, free the queues, reset the configuration space,
    /// and poll again.
    Finished,
}

impl DeviceView {
    /// A poll of a function-level reset: the state after it, and what is next.
    pub open spec fn poll_flr(self, signaled: bool, hwc_stopped: bool, stopped: Seq<usize>) -> (
        DeviceView,
        FlrStep,
    ) {
        let down = torn_down(self.bnic.vports, stopped, 0);
        if !self.flr_draining && !signaled {
            (self, FlrStep::Idle)
        } else if !hwc_stopped {
            (DeviceView { flr_draining: true, ..self }, FlrStep::Pending { endpoints: 0 })
        } else if down < self.bnic.vports.len() {
            (
                DeviceView {
                    flr_draining: true,
                    bnic: self.bnic.poll_shut_down(stopped),
                    ..self
                },
                FlrStep::Pending { endpoints: down as usize },
            )
        } else {
            (DeviceView { flr_draining: false, ..self.after_reset() }, FlrStep::Finished)
        }
    }
}

impl GdmaDevice {
    /// Drives a function-level reset as far as it gets. `signaled` tells whether the guest
    /// initiated one, `hwc_stopped` whether the channel has stopped, and `stopped` how many tasks
    /// of each vport, from the first on, have.
    ///
    /// The reset is initiated synchronously while its teardown is not, so that it is carried from
    /// poll to poll. Unlike [`GdmaDevice::reset`] it resets the configuration space too: the guest
    /// has to enumerate the function again, as it would after a hardware reset.
    pub fn poll_device(&mut self, signaled: bool, hwc_stopped: bool, stopped: &Vec<usize>) -> (ret:
        FlrStep)
        requires
            old(self).wf(),
            stopped@.len() == old(self)@.bnic.vports.len(),
        ensures
            final(self).wf(),
            final(self).same_registers(old(self)),
            final(self)@ == old(self)@.poll_flr(signaled, hwc_stopped, stopped@).0,
            ret == old(self)@.poll_flr(signaled, hwc_stopped, stopped@).1,
    {
        if !self.flr_draining {
            if !signaled {
                return FlrStep::Idle;
            }
            self.flr_draining = true;
        }
        if !hwc_stopped {
            return FlrStep::Pending { endpoints: 0 };
        }
        let endpoints: usize = self.devices.bnic.poll_shutdown(stopped);
        assert(self.devices.bnic.vports.len() == self@.bnic.vports.len());
        if endpoints < self.devices.bnic.vports.len() {
            return FlrStep::Pending { endpoints };
        }
        proof {
            crate::nic_laws::polled_teardown_ends_in_shutdown(old(self)@.bnic, stopped@);
        }
        self.hwc = None;
        self.destroying_hwc = false;
        self.shmem = zeroes(SHMEM_LEN);
        self.flr_draining = false;
        FlrStep::Finished
    }
}

/// A function-level reset, however many polls it takes, leaves the device as a reset at once does:
/// the last poll leaves the device reset, and those before it keep to what a reset leads to.
pub proof fn function_level_reset_is_a_reset(
    device: DeviceView,
    signaled: bool,
    hwc_stopped: bool,
    stopped: Seq<usize>,
)
    requires
        stopped.len() == device.bnic.vports.len(),
    ensures
        ({
            let (after, step) = device.poll_flr(signaled, hwc_stopped, stopped);
            let done = DeviceView { flr_draining: false, ..device.after_reset() };
            &&& step is Finished ==> after == done
            &&& step is Pending ==> after.flr_draining
            &&& step is Idle <==> !device.flr_draining && !signaled
            &&& DeviceView { flr_draining: false, ..after.after_reset() } == done
        }),
{
    crate::nic_laws::polled_teardown_ends_in_shutdown(device.bnic, stopped);
}

/// A reset leaves a device as it was when it was new, but for the handles that the network client
/// gives out next.
pub proof fn reset_makes_the_device_new(
    limits: QueueLimits,
    vports: Seq<VportConfig>,
    config: BnicConfig,
    device: DeviceView,
)
    requires
        device.config == config,
        device.limits == limits,
        device.bnic.config == config,
        !device.flr_draining,
        device.bnic.vports.len() == vports.len(),
        forall|i: int|
            0 <= i < vports.len() ==> (#[trigger] device.bnic.vports[i]).mac_address
                == vports[i].mac_address && device.bnic.vports[i].max_queues
                == vports[i].max_queues,
    ensures
        device.after_reset() == (DeviceView {
            bnic: NicView {
                next_wq_obj: device.bnic.next_wq_obj,
                next_filter_handle: device.bnic.next_filter_handle,
                ..new_nic(vports, config)
            },
            ..new_device(limits, vports, config)
        }),
{
    assert(device.after_reset().bnic.vports =~= new_nic(vports, config).vports);
}

/// Whether a write into the shared-memory window reaches the header dword.
pub open spec fn reaches_header(at: usize, data: Seq<u8>) -> bool {
    ranges_overlap(
        Range { start: (SHMEM_LEN - 4) as usize, end: SHMEM_LEN },
        Range { start: at, end: (at + data.len()) as usize },
    )
}

/// The possession handshake: a write that reaches the header dword leaves the window either in the
/// device's possession, with the request still in it, or back in the guest's possession, with a
/// response to the very message that was asked. A write that does not reach it asks for nothing.
pub proof fn possession_handshake(device: DeviceView, at: usize, data: Seq<u8>)
    requires
        device.shmem.len() == SHMEM_LEN,
        at + data.len() <= SHMEM_LEN,
    ensures
        ({
            let (after, action) = device.write_shmem(at, data);
            let asked = header_of(splice(device.shmem, at as int, data));
            let hdr = header_of(after.shmem);
            if !reaches_header(at, data) {
                action == RegAction::Done && hdr == header_of(device.shmem)
            } else {
                &&& hdr.msg_type() == asked.msg_type()
                &&& hdr.msg_version() == asked.msg_version()
                &&& if action is Establish || action is StopHwc {
                    hdr.owner_is_pf() && !hdr.is_response()
                } else {
                    &&& !hdr.owner_is_pf()
                    &&& hdr.is_response()
                    &&& hdr.status() == if action is Refused {
                        1u32
                    } else {
                        0
                    }
                }
            }
        }),
{
    let shmem = splice(device.shmem, at as int, data);
    let asked = header_of(shmem);
    crate::smc::possession_keeps_the_request(asked);
    crate::smc::header_reads_back(shmem, asked.possessed());
    let held = with_header(shmem, asked.possessed());
    crate::smc::answer_keeps_the_message(asked.possessed(), 0);
    crate::smc::answer_keeps_the_message(asked.possessed(), 1);
    crate::smc::header_reads_back(held, asked.possessed().answered(0));
    crate::smc::header_reads_back(held, asked.possessed().answered(1));
}

/// A window in which the guest has asked for something.
pub open spec fn asks_for(shmem: Seq<u8>, msg_type: u32, version: u32) -> bool {
    let hdr = header_of(shmem);
    hdr.msg_type() == msg_type && hdr.msg_version() == version && !hdr.is_response()
}

/// Establishing a channel is refused exactly while one is active, with a failure in the header, and
/// leaves that one as it is.
pub proof fn establish_needs_an_idle_device(device: DeviceView, at: usize, data: Seq<u8>)
    requires
        device.shmem.len() == SHMEM_LEN,
        at + data.len() <= SHMEM_LEN,
        reaches_header(at, data),
        asks_for(
            splice(device.shmem, at as int, data),
            crate::smc::SMC_MSG_TYPE_ESTABLISH_HWC,
            crate::smc::SMC_MSG_TYPE_ESTABLISH_HWC_VERSION,
        ),
    ensures
        ({
            let (after, action) = device.write_shmem(at, data);
            &&& after.hwc == device.hwc
            &&& device.hwc is Some ==> action == RegAction::Refused(SmcError::HwcAlreadyActive)
                && header_of(after.shmem).status() == 1
            &&& device.hwc is None ==> action is Establish
        }),
{
    possession_handshake(device, at, data);
    let shmem = splice(device.shmem, at as int, data);
    crate::smc::possession_keeps_the_request(header_of(shmem));
    crate::smc::header_reads_back(shmem, header_of(shmem).possessed());
}

/// After a reset a channel can be established, whatever there was before.
pub proof fn reset_allows_a_channel(device: DeviceView, at: usize, data: Seq<u8>)
    requires
        at + data.len() <= SHMEM_LEN,
        reaches_header(at, data),
        asks_for(
            splice(device.after_reset().shmem, at as int, data),
            crate::smc::SMC_MSG_TYPE_ESTABLISH_HWC,
            crate::smc::SMC_MSG_TYPE_ESTABLISH_HWC_VERSION,
        ),
    ensures
        device.after_reset().write_shmem(at, data).1 is Establish,
{
    establish_needs_an_idle_device(device.after_reset(), at, data);
}

/// Destroying a channel: the device keeps possession for as long as the channel has not stopped,
/// however often the guest looks, and then answers with success; a channel can be established
/// again from then on.
pub proof fn destroy_is_answered_once_stopped(device: DeviceView, at: usize, data: Seq<u8>)
    requires
        device.shmem.len() == SHMEM_LEN,
        at + data.len() <= SHMEM_LEN,
        reaches_header(at, data),
        asks_for(
            splice(device.shmem, at as int, data),
            crate::smc::SMC_MSG_TYPE_DESTROY_HWC,
            crate::smc::SMC_MSG_TYPE_DESTROY_HWC_VERSION,
        ),
    ensures
        ({
            let (asked, action) = device.write_shmem(at, data);
            let waiting = asked.poll_destroyed(false);
            let done = asked.poll_destroyed(true);
            &&& action == RegAction::StopHwc
            &&& waiting == asked
            &&& header_of(waiting.shmem).owner_is_pf()
            &&& !header_of(done.shmem).owner_is_pf()
            &&& header_of(done.shmem).is_response()
            &&& header_of(done.shmem).status() == 0
            &&& header_of(done.shmem).msg_type() == crate::smc::SMC_MSG_TYPE_DESTROY_HWC
            &&& done.hwc is None
            &&& !done.destroying_hwc
        }),
{
    let shmem = splice(device.shmem, at as int, data);
    let hdr = header_of(shmem);
    crate::smc::possession_keeps_the_request(hdr);
    crate::smc::header_reads_back(shmem, hdr.possessed());
    let held = with_header(shmem, hdr.possessed());
    crate::smc::answer_keeps_the_message(hdr.possessed(), 0);
    crate::smc::header_reads_back(held, hdr.possessed().answered(0));
}

/// A host-management client that asks whether the device is ready is told so.
pub proof fn host_management_query_succeeds(device: DeviceView, at: usize, data: Seq<u8>)
    requires
        device.shmem.len() == SHMEM_LEN,
        at + data.len() <= SHMEM_LEN,
        reaches_header(at, data),
        asks_for(
            splice(device.shmem, at as int, data),
            crate::smc::SMC_MSG_TYPE_HOST_MGMT_READY,
            crate::smc::SMC_MSG_TYPE_HOST_MGMT_READY_VERSION,
        ),
    ensures
        ({
            let (after, action) = device.write_shmem(at, data);
            let hdr = header_of(after.shmem);
            &&& action == RegAction::Done
            &&& hdr.is_response()
            &&& hdr.status() == 0
            &&& !hdr.owner_is_pf()
            &&& hdr.msg_type() == crate::smc::SMC_MSG_TYPE_HOST_MGMT_READY
            &&& after.hwc == device.hwc
        }),
{
    possession_handshake(device, at, data);
    let shmem = splice(device.shmem, at as int, data);
    crate::smc::possession_keeps_the_request(header_of(shmem));
    crate::smc::header_reads_back(shmem, header_of(shmem).possessed());
}

/// A virtual function exposes no registers of a physical function: in its place it reads all ones.
pub proof fn vf_leaves_the_pf_window_unmapped(device: DeviceView, offset: usize, len: nat)
    requires
        !device.config.bm_hostmode,
        !device.config.pf_caps,
        0 < len,
        hits(PF_REGS_START, PF_REGS_LEN, offset, len),
        offset + len <= usize::MAX,
    ensures
        device.read(offset, len) == all_ones(len),
{
    assert(device.read(offset, len) =~= all_ones(len));
}

/// A reset leaves everything but the shared-memory window reading as before.
pub proof fn reset_keeps_the_registers(device: DeviceView, offset: usize, len: nat)
    requires
        !(read_source(device.config, offset, len) is SharedMemory),
    ensures
        device.after_reset().read(offset, len) == device.read(offset, len),
{
}

} // verus!
