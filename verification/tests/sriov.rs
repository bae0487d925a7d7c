use vm_devices::sriov::{
    SriovExtendedCapability, SRIOV_CAPABILITY_ID, SRIOV_CAP_LEN, SRIOV_CONTROL_STATUS,
    SRIOV_HEADER, SRIOV_INITIAL_TOTAL_VFS, SRIOV_SUPPORTED_PAGE_SIZES, SRIOV_SYSTEM_PAGE_SIZE,
    SUPPORTED_PAGE_SIZES,
};

#[test]
fn test_sriov_defaults() {
    let cap = SriovExtendedCapability::new();

    assert_eq!(cap.label(), "sriov");
    assert_eq!(cap.extended_capability_id(), SRIOV_CAPABILITY_ID);
    assert_eq!(cap.capability_version(), 1);
    assert_eq!(cap.len(), SRIOV_CAP_LEN);
    // The header holds the identifier and the version, and no link to a
    // further capability.
    assert_eq!(cap.read_u32(SRIOV_HEADER), 0x0001_0010);

    // No virtual functions advertised.
    assert_eq!(cap.read_u32(SRIOV_INITIAL_TOTAL_VFS), 0);
    // 4 KB page support, selected by default.
    assert_eq!(
        cap.read_u32(SRIOV_SUPPORTED_PAGE_SIZES),
        SUPPORTED_PAGE_SIZES
    );
    assert_eq!(cap.read_u32(SRIOV_SYSTEM_PAGE_SIZE), SUPPORTED_PAGE_SIZES);
}

#[test]
fn test_sriov_system_page_size_rw() {
    let mut cap = SriovExtendedCapability::new();

    cap.write_u32(SRIOV_SYSTEM_PAGE_SIZE, 0x2);
    assert_eq!(cap.read_u32(SRIOV_SYSTEM_PAGE_SIZE), 0x2);

    cap.reset();
    assert_eq!(cap.read_u32(SRIOV_SYSTEM_PAGE_SIZE), SUPPORTED_PAGE_SIZES);
}

#[test]
fn test_sriov_save_restore() {
    let mut cap = SriovExtendedCapability::new();
    cap.write_u32(SRIOV_CONTROL_STATUS, 0x1);
    cap.write_u32(SRIOV_SYSTEM_PAGE_SIZE, 0x2);

    let saved = cap.save().expect("save should succeed");

    cap.reset();
    cap.restore(saved).expect("restore should succeed");

    assert_eq!(cap.read_u32(SRIOV_CONTROL_STATUS), 0x1);
    assert_eq!(cap.read_u32(SRIOV_SYSTEM_PAGE_SIZE), 0x2);
}

#[test]
fn read_only_registers_ignore_writes() {
    let mut cap = SriovExtendedCapability::default();
    for offset in (0..SRIOV_CAP_LEN as u16).step_by(4) {
        if offset != SRIOV_CONTROL_STATUS && offset != SRIOV_SYSTEM_PAGE_SIZE {
            let before = cap.read_u32(offset);
            cap.write_u32(offset, 0xffff_ffff);
            assert_eq!(cap.read_u32(offset), before);
        }
    }
    assert_eq!(cap.read_u32(SRIOV_INITIAL_TOTAL_VFS), 0);
}

#[test]
fn only_the_control_half_is_writable() {
    let mut cap = SriovExtendedCapability::new();
    cap.write_u32(SRIOV_CONTROL_STATUS, 0x1234_5678);
    assert_eq!(cap.read_u32(SRIOV_CONTROL_STATUS), 0x5678);
}
