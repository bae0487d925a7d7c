use vm_devices::bnic::{BnicConfig, VportConfig};
use vm_devices::channel::{HwcChannel, Phase};
use vm_devices::device::{
    Doorbell, FlrStep, GdmaDevice, RegAction, DEVICE_ID, PF_DEVICE_ID, VENDOR_ID,
};
use vm_devices::hwc::{HwControl, HwcSetup, QueueLimits, SetupRequest};
use vm_devices::regs::{
    build_pf_cap_regs, build_pf_desc, build_pf_regs, build_pf_sriov_zone, build_regmap,
    PF_SRIOV_SHMEM_START, SHMEM_START,
};
use vm_devices::save_restore::SaveError;
use vm_devices::smc::{SmcError, SmcProtoHdr};

const LIMITS: QueueLimits = QueueLimits {
    max_sqs: 64,
    max_rqs: 64,
    max_cqs: 128,
    max_eqs: 64,
};

fn vports() -> Vec<VportConfig> {
    vec![VportConfig {
        mac_address: [1, 2, 3, 4, 5, 6],
        max_queues: 1,
        is_ordered: true,
    }]
}

fn device(bm_hostmode: bool, pf_caps: bool) -> GdmaDevice {
    GdmaDevice::new_with_config(
        LIMITS,
        vports(),
        BnicConfig {
            bm_hostmode,
            pf_caps,
            ..BnicConfig::default()
        },
    )
}

fn read_u32(device: &mut GdmaDevice, offset: usize) -> u32 {
    let bytes = device.read_reg(offset, 4, false);
    u32::from_le_bytes(bytes.try_into().unwrap())
}

fn read_u64(device: &mut GdmaDevice, offset: usize) -> u64 {
    let bytes = device.read_reg(offset, 8, false);
    u64::from_le_bytes(bytes.try_into().unwrap())
}

fn header(device: &mut GdmaDevice, shmem: usize) -> SmcProtoHdr {
    SmcProtoHdr {
        raw: read_u32(device, shmem + 28),
    }
}

/// A channel over queues that were all allocated.
fn channel(queues: vm_devices::hwc::ChannelQueues) -> HwcChannel {
    let mut setup = HwcSetup::new(queues);
    for id in 0..4 {
        assert!(setup.next().is_some());
        setup.allocated(id);
    }
    assert!(setup.next().is_none());
    let (control, _) = HwControl::new(&setup, LIMITS);
    HwcChannel::new(control)
}

/// Writes a request to establish a channel, its header last.
fn write_establish(device: &mut GdmaDevice, shmem: usize) -> RegAction {
    for dword in 0..7usize {
        let action = device.write_reg(shmem + 4 * dword, &(dword as u32 + 1).to_le_bytes());
        assert_eq!(action, RegAction::Done);
    }
    device.write_reg(shmem + 28, &1u32.to_le_bytes())
}

fn establish(device: &mut GdmaDevice, shmem: usize) {
    match write_establish(device, shmem) {
        RegAction::Establish(queues) => {
            assert_eq!(device.established(Some(channel(queues))), Ok(()));
        }
        action => panic!("unexpected {action:?}"),
    }
}

#[test]
fn vf_map_is_exposed() {
    let mut device = GdmaDevice::new(LIMITS, vports());
    let identity = device.identity();
    assert_eq!(identity.vendor_id, VENDOR_ID);
    assert_eq!(identity.device_id, DEVICE_ID);
    assert_eq!(identity.revision_id, 1);
    assert!(!identity.sriov);
    assert_eq!(identity.bar0_len, 8192);
    assert_eq!((identity.msix_bar, identity.msix_count), (4, 64));
    // Version 1.0.1: micro in the low half, major in the high byte.
    assert_eq!(read_u32(&mut device, 0), 0x0100_0001);
    assert_eq!(read_u64(&mut device, 8), 4096);
    assert_eq!(read_u32(&mut device, 16), 4096);
    assert_eq!(read_u64(&mut device, 24), 40);
    assert_eq!(read_u32(&mut device, 32), 32);
    // The window of a physical function is not mapped.
    assert_eq!(read_u64(&mut device, 0x70), u64::MAX);
    assert_eq!(read_u64(&mut device, 0xc8), u64::MAX);
    // A read that straddles two regions is served by neither.
    assert_eq!(read_u64(&mut device, 36), u64::MAX);
    assert_eq!(device.read_reg(12, 0, false), Vec::<u8>::new());
}

#[test]
fn bm_hostmode_exposes_the_pf_window() {
    let mut device = device(true, false);
    assert_eq!(device.identity().device_id, PF_DEVICE_ID);
    assert!(!device.identity().sriov);
    assert_eq!(read_u32(&mut device, 0xd0), 4096);
    assert_eq!(read_u64(&mut device, 0xc8), 4096);
    assert_eq!(read_u64(&mut device, 0x108), 0);
    assert_eq!(read_u64(&mut device, 0x70), 40);
    // The map of a virtual function stays in place, and so does the channel.
    assert_eq!(read_u64(&mut device, 24), 40);
    establish(&mut device, SHMEM_START);
    assert_eq!(header(&mut device, SHMEM_START).status(), 0);
}

#[test]
fn pf_caps_registers_are_walked() {
    let mut device = device(false, true);
    assert_eq!(device.identity().device_id, PF_DEVICE_ID);
    assert!(device.identity().sriov);
    assert_eq!(read_u32(&mut device, 0) >> 24, 2);
    // Every advertised region lies within the BAR.
    for (off, size) in [
        (0x48, 0x50),
        (0x58, 0x50),
        (0x60, 0x50),
        (0x68, 0x70),
        (0x78, 0x80),
        (0x88, 0x90),
        (0x98, 0xa0),
        (0xc8, 0xd0),
        (0xd8, 0xe0),
        (0xe8, 0xf0),
        (0xf8, 0x100),
        (0x108, 0x110),
        (0x118, 0x120),
    ] {
        let base = read_u64(&mut device, off);
        let len = read_u32(&mut device, size) as u64;
        assert!(base + len <= 8192);
    }
    let cap_zone = read_u64(&mut device, 0x48) as usize;
    assert_eq!(read_u32(&mut device, 0x50), 0x68);
    assert_eq!(read_u64(&mut device, 0xc8), 4096);
    assert_eq!(read_u32(&mut device, 0xd0), 4096);
    let sriov = read_u64(&mut device, 0x108) as usize;
    let shmem = sriov + read_u64(&mut device, sriov + 0x70) as usize;
    assert_eq!(shmem, PF_SRIOV_SHMEM_START);
    assert_eq!(read_u32(&mut device, sriov + 0x78), 32);
    let caps: Vec<u32> = [
        0x00, 0x04, 0x08, 0x10, 0x18, 0x20, 0x28, 0x30, 0x38, 0x40, 0x48, 0x50, 0x58, 0x60,
    ]
    .iter()
    .map(|off| read_u32(&mut device, cap_zone + off))
    .collect();
    assert_eq!(caps, vec![0, 0, 64, 64, 128, 64, 0, 0, 1, 0, 1514, 1, 64, 64]);
    assert_eq!(read_u32(&mut device, 0x70), 0);
    assert_eq!(read_u32(&mut device, 0xa0), 0);
    assert_eq!(read_u32(&mut device, 0x100), 0);
}

#[test]
fn register_blocks_have_their_lengths() {
    assert_eq!(build_regmap(40).len(), 40);
    assert_eq!(build_pf_regs().len(), 0xc8);
    assert_eq!(build_pf_desc().len(), 0x148);
    assert_eq!(build_pf_sriov_zone().len(), 0x80);
    assert_eq!(build_pf_cap_regs(&LIMITS).len(), 0x68);
    assert_eq!(build_pf_cap_regs(&LIMITS)[0x18], 128);
}

#[test]
fn pf_caps_host_mgmt_ready() {
    let mut device = device(false, true);
    let shmem = PF_SRIOV_SHMEM_START;
    let request = SmcProtoHdr { raw: 3 };
    assert!(!request.is_response());
    let action = device.write_reg(shmem + 28, &request.raw.to_le_bytes());
    assert_eq!(action, RegAction::Done);
    let response = header(&mut device, shmem);
    assert_eq!(response.msg_type(), 3);
    assert!(response.is_response());
    assert!(response.msg_version() <= request.msg_version());
    assert_eq!(response.status(), 0);
    assert!(!response.owner_is_pf());
}

#[test]
fn establish_unpacks_the_queues() {
    let mut device = GdmaDevice::new(LIMITS, vports());
    let (eq, cq, rq, sq) = (
        0xf_1234_5678_9abcu64,
        0x1_0000_0000_0001u64,
        0xa_ffff_ffff_ffffu64,
        0x0_dead_beef_0000u64,
    );
    let mut window = [0u8; 32];
    for (i, gpn) in [eq, cq, rq, sq].iter().enumerate() {
        window[6 * i..6 * i + 6].copy_from_slice(&gpn.to_le_bytes()[..6]);
    }
    let high = (eq >> 48) | (cq >> 48) << 4 | (rq >> 48) << 8 | (sq >> 48) << 12;
    window[24..28].copy_from_slice(&(high as u32 | 37 << 16).to_le_bytes());
    window[28] = 1;
    match device.write_reg(SHMEM_START, &window) {
        RegAction::Establish(queues) => {
            assert_eq!(queues.eq_gpa, eq * 4096);
            assert_eq!(queues.cq_gpa, cq * 4096);
            assert_eq!(queues.rq_gpa, rq * 4096);
            assert_eq!(queues.sq_gpa, sq * 4096);
            assert_eq!(queues.eq_msix, 37);
        }
        action => panic!("unexpected {action:?}"),
    }
    // Until the channel is set up, the window is the device's.
    assert!(header(&mut device, SHMEM_START).owner_is_pf());
    assert_eq!(device.established(None), Err(SmcError::QueueAlloc));
    let response = header(&mut device, SHMEM_START);
    assert_eq!((response.status(), response.is_response()), (1, true));
    assert!(!response.owner_is_pf());
    assert!(device.hwc.is_none());
}

#[test]
fn setup_allocates_in_order() {
    let queues = vm_devices::hwc::ChannelQueues {
        sq_gpa: 0x1000,
        rq_gpa: 0x2000,
        cq_gpa: 0x3000,
        eq_gpa: 0x4000,
        eq_msix: 7,
    };
    let mut setup = HwcSetup::new(queues);
    let pages = |region: &vm_devices::dma::DmaRegion| region.range().gpns().clone();
    assert!(matches!(setup.next(), Some(SetupRequest::AllocWq { is_send: true, region }) if pages(&region) == [1]));
    setup.allocated(10);
    assert!(matches!(setup.next(), Some(SetupRequest::AllocWq { is_send: false, region }) if pages(&region) == [2]));
    setup.allocated(11);
    assert!(matches!(setup.next(), Some(SetupRequest::AllocEq { region, msix: 7 }) if pages(&region) == [4]));
    setup.allocated(12);
    assert!(matches!(setup.next(), Some(SetupRequest::AllocCq { region, eq_id: 12 }) if pages(&region) == [3]));
}

#[test]
fn reestablish_is_refused_while_active() {
    let mut device = GdmaDevice::new(LIMITS, vports());
    establish(&mut device, SHMEM_START);
    assert_eq!(
        write_establish(&mut device, SHMEM_START),
        RegAction::Refused(SmcError::HwcAlreadyActive)
    );
    let response = header(&mut device, SHMEM_START);
    assert_eq!((response.status(), response.owner_is_pf()), (1, false));
    assert!(device.hwc.is_some());
}

#[test]
fn reset_allows_reestablish() {
    let mut device = GdmaDevice::new(LIMITS, vports());
    establish(&mut device, SHMEM_START);
    assert_eq!(device.reset(), vec![false]);
    assert!(device.hwc.is_none());
    assert_eq!(device.read_reg(SHMEM_START, 32, false), vec![0; 32]);
    establish(&mut device, SHMEM_START);
    assert!(device.hwc.is_some());
}

#[test]
fn destroy_follows_the_possession_handshake() {
    let mut device = GdmaDevice::new(LIMITS, vports());
    establish(&mut device, SHMEM_START);
    assert!(!header(&mut device, SHMEM_START).owner_is_pf());
    let action = device.write_reg(SHMEM_START + 28, &2u32.to_le_bytes());
    assert_eq!(action, RegAction::StopHwc);
    assert!(device.polls_hwc_stop(SHMEM_START + 28, 4));
    assert!(!device.polls_hwc_stop(0, 4));
    // The device holds the window for as long as the channel has not stopped.
    for _ in 0..3 {
        let pending = header(&mut device, SHMEM_START);
        assert!(pending.owner_is_pf() && !pending.is_response());
        assert_eq!(pending.msg_type(), 2);
    }
    let bytes = device.read_reg(SHMEM_START + 28, 4, true);
    let response = SmcProtoHdr {
        raw: u32::from_le_bytes(bytes.try_into().unwrap()),
    };
    assert!(!response.owner_is_pf() && response.is_response());
    assert_eq!((response.msg_type(), response.status()), (2, 0));
    assert!(device.hwc.is_none());
    assert!(!device.polls_hwc_stop(SHMEM_START + 28, 4));
    establish(&mut device, SHMEM_START);
}

#[test]
fn smc_refusals_are_told_apart() {
    let mut device = GdmaDevice::new(LIMITS, vports());
    let mut ask = |raw: u32| device.write_reg(SHMEM_START + 28, &raw.to_le_bytes());
    let refused = RegAction::Refused;
    assert_eq!(ask(1 | 0x80), refused(SmcError::RequestIsResponse));
    assert_eq!(ask(1 | 1 << 3), refused(SmcError::UnsupportedVersion));
    assert_eq!(ask(2 | 1 << 3), refused(SmcError::UnsupportedVersion));
    assert_eq!(ask(4), refused(SmcError::UnsupportedVersion));
    assert_eq!(ask(0), refused(SmcError::UnsupportedRequest(0)));
    assert_eq!(ask(5), refused(SmcError::UnsupportedRequest(5)));
    assert!(matches!(ask(4 | 1 << 3), RegAction::Timeout(_)));
}

#[test]
fn timeout_report_is_unpacked() {
    let mut device = GdmaDevice::new(LIMITS, vports());
    for (dword, value) in [(0, 11u32), (1, 12), (2, 13), (3, 14), (6, 0xff12_3456)] {
        device.write_reg(SHMEM_START + 4 * dword, &value.to_le_bytes());
    }
    match device.write_reg(SHMEM_START + 28, &(4u32 | 1 << 3).to_le_bytes()) {
        RegAction::Timeout(timeout) => {
            assert_eq!((timeout.rqt, timeout.sqt), (11, 12));
            assert_eq!((timeout.cqn, timeout.eqn), (13, 14));
            assert_eq!((timeout.wait_time, timeout.cmd_failed), (0x12_3456, 1));
        }
        action => panic!("unexpected {action:?}"),
    }
    let response = header(&mut device, SHMEM_START);
    assert_eq!((response.status(), response.is_response()), (0, true));
}

#[test]
fn doorbells_are_decoded() {
    let mut device = GdmaDevice::new(LIMITS, vports());
    let mut ring = |offset: usize| device.write_reg(4096 + offset, &7u64.to_le_bytes());
    assert_eq!(ring(0), RegAction::Ring(Doorbell::Sq(7)));
    assert_eq!(ring(0x400), RegAction::Ring(Doorbell::Rq(7)));
    assert_eq!(ring(0x408), RegAction::Ring(Doorbell::RqClientData));
    assert_eq!(ring(0x800), RegAction::Ring(Doorbell::Cq(7)));
    assert_eq!(ring(0xff8), RegAction::Ring(Doorbell::Eq(7)));
    assert_eq!(ring(8), RegAction::Ring(Doorbell::Unknown));
    assert_eq!(device.write_reg(4096, &[0; 4]), RegAction::BadWrite);
    assert_eq!(device.write_reg(0, &[0; 4]), RegAction::BadWrite);
    assert_eq!(device.write_reg(8191, &[0; 8]), RegAction::BadWrite);
}

#[test]
fn function_level_reset_is_carried_on() {
    let mut device = GdmaDevice::new(LIMITS, vports());
    establish(&mut device, SHMEM_START);
    assert_eq!(device.poll_device(false, true, &vec![0]), FlrStep::Idle);
    assert!(device.hwc.is_some());
    let waits = FlrStep::Pending { endpoints: 0 };
    assert_eq!(device.poll_device(true, false, &vec![0]), waits);
    device.devices.bnic.vports[0].tasks = 1;
    assert_eq!(device.poll_device(false, true, &vec![0]), waits);
    assert!(device.hwc.is_some() && device.flr_draining);
    assert_eq!(device.poll_device(false, true, &vec![1]), FlrStep::Finished);
    assert!(device.hwc.is_none() && !device.flr_draining);
    assert_eq!(device.devices.bnic.vports[0].tasks, 0);
    assert_eq!(device.poll_device(false, true, &vec![0]), FlrStep::Idle);
    establish(&mut device, SHMEM_START);
}

#[test]
fn header_fields_do_not_disturb_one_another() {
    let request = SmcProtoHdr { raw: 0x0155_0042 };
    let held = request.take_possession();
    assert_eq!(held.raw, 0x8155_0042);
    assert_eq!(held.take_possession(), held);
    assert_eq!(held.answer(1).raw, 0x0155_01c2);
    assert_eq!(held.answer(0xff).status(), 0xff);
}

#[test]
fn device_state_is_not_saved() {
    let mut device = GdmaDevice::new(LIMITS, vports());
    assert_eq!(device.save(), Err(SaveError::NotSupported));
}

#[test]
fn established_channel_waits() {
    let mut device = GdmaDevice::new(LIMITS, vports());
    establish(&mut device, SHMEM_START);
    assert!(matches!(
        device.hwc.as_ref().map(|hwc| &hwc.phase),
        Some(Phase::Wait)
    ));
}
