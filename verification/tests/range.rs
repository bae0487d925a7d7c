use vm_devices::range::ContainsRange;
use vm_devices::regs::SHMEM_LEN;

/// The SMC handler must fire only when a guest write actually touches the
/// final header dword `[SHMEM_LEN - 4, SHMEM_LEN)`.
#[test]
fn smc_trigger_excludes_adjacent_dword() {
    let trigger = (SHMEM_LEN - 4)..SHMEM_LEN;

    // Writes that genuinely touch the header dword must trigger the handler.
    assert!(trigger.overlaps_range(&((SHMEM_LEN - 4)..SHMEM_LEN)));
    assert!(trigger.overlaps_range(&((SHMEM_LEN - 4)..(SHMEM_LEN - 3))));
    assert!(trigger.overlaps_range(&(0..SHMEM_LEN)));

    // The dword immediately below the header is adjacent, not overlapping,
    // and must NOT trigger the handler.
    assert!(!trigger.overlaps_range(&((SHMEM_LEN - 8)..(SHMEM_LEN - 4))));
    assert!(!trigger.overlaps_range(&(0..4)));
}

/// `contains_range` is likewise half-open: a sub-range that ends exactly at
/// the container's end is contained, but one byte past is not.
#[test]
fn contains_range_is_half_open() {
    let region = 0..SHMEM_LEN;
    assert!(region.contains_range(&((SHMEM_LEN - 4)..SHMEM_LEN)));
    assert!(region.contains_range(&(0..SHMEM_LEN)));
    assert!(!region.contains_range(&(0..(SHMEM_LEN + 1))));
}
