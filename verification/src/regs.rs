//! The register surface of the device's first BAR.

use crate::bytes::{le32_at, le64_at, le_bytes, le_bytes_len, le_bytes_read_back};
use crate::bytes::{put_le, splice, zero_bytes, zeroes};
use crate::hwc::QueueLimits;
use vstd::prelude::*;

verus! {

/// Length of the register BAR.
pub const BAR0_LEN: usize = 8192;

/// Where the register map of a virtual function ends; it starts at the base of the BAR.
pub const REGMAP_LEN: usize = 40;

/// Where the shared-memory window of a virtual function starts.
pub const SHMEM_START: usize = 40;

/// Length of the shared-memory window.
pub const SHMEM_LEN: usize = 32;

/// Where the doorbell page starts.
pub const DOORBELLS_START: usize = 4096;

/// Length of the doorbell page.
pub const DOORBELLS_LEN: usize = 4096;

/// Where the register window of a bare-metal physical function starts. It lies above the
/// shared-memory window, and is exposed beside the map of a virtual function.
pub const PF_REGS_START: usize = 0x48;

/// Length of that window: the highest register is the 64-bit base of the SR-IOV block.
pub const PF_REGS_LEN: usize = 0xc8;

/// Offset of the shared-memory window, relative to the SR-IOV block.
pub const PF_REG_SHM_OFF: usize = 0x70;

/// Offset of the doorbell page.
pub const PF_REG_DB_PAGE_OFF: usize = 0xc8;

/// Size of the doorbell page.
pub const PF_REG_DB_PAGE_SIZE: usize = 0xd0;

/// Base of the SR-IOV block.
pub const PF_REG_SRIOV_CFG_BASE_OFF: usize = 0x108;

/// Length of the region-descriptor table, which stands at the base of the BAR.
///
/// A privileged client reads another register surface than a virtual function: a table in which
/// each region of the device is described by a 64-bit offset and a 32-bit size (a few share one
/// size). It validates that every advertised region lies within the BAR; regions that are not
/// implemented advertise size 0, which is within it and reads as "absent".
pub const PF_DESC_LEN: usize = 0x148;

/// Device version in the descriptor table: major 2, minor 0, micro 0. The major number selects the
/// platform generation.
pub const PF_DESC_VERSION: u32 = 0x200_0000;

/// Version: micro (bits 15:0), minor (bits 23:16), major (bits 31:24).
pub const PF_DESC_VERSION_AT: usize = 0x00;

pub const PF_DESC_CAP_ZONE_OFF: usize = 0x48;

pub const PF_DESC_CAP_ZONE_SZ: usize = 0x50;

/// The status region has the size of the capability zone.
pub const PF_DESC_STATUS_ZONE_OFF: usize = 0x58;

/// The control region has the size of the capability zone.
pub const PF_DESC_CONTROL_ZONE_OFF: usize = 0x60;

pub const PF_DESC_SEND_WQ_CTX_OFF: usize = 0x68;

pub const PF_DESC_RECV_WQ_CTX_OFF: usize = 0x78;

pub const PF_DESC_CQ_CTX_OFF: usize = 0x88;

pub const PF_DESC_EQ_CTX_OFF: usize = 0x98;

pub const PF_DESC_DOORBELL_OFF: usize = 0xc8;

pub const PF_DESC_DOORBELL_SZ: usize = 0xd0;

pub const PF_DESC_CQ_MOD_CTX_OFF: usize = 0xd8;

pub const PF_DESC_SCHEDULER_OFF: usize = 0xe8;

pub const PF_DESC_XLATE_OFF: usize = 0xf8;

pub const PF_DESC_SRIOV_OFF: usize = 0x108;

pub const PF_DESC_SRIOV_SZ: usize = 0x110;

pub const PF_DESC_DEBUG_OFF: usize = 0x118;

/// Where the capability zone starts.
pub const PF_CAP_ZONE_START: usize = 0x200;

/// Length of the capability zone.
pub const PF_CAP_REGS_LEN: usize = 0x68;

pub const PF_CAP_HW_CAPABILITIES: usize = 0x00;

pub const PF_CAP_FEATURE_FLAGS: usize = 0x04;

pub const PF_CAP_MAX_SEND_QUEUES: usize = 0x08;

pub const PF_CAP_MAX_RECEIVE_QUEUES: usize = 0x10;

pub const PF_CAP_MAX_COMPLETION_QUEUES: usize = 0x18;

pub const PF_CAP_MAX_EVENT_QUEUES: usize = 0x20;

pub const PF_CAP_MAX_CQ_MODERATION_CONTEXTS: usize = 0x28;

pub const PF_CAP_NUM_VIRTUAL_FUNCTIONS: usize = 0x30;

pub const PF_CAP_MAX_DOORBELL_PAGES: usize = 0x38;

pub const PF_CAP_MAX_MODERATED_COMPLETION_QUEUES: usize = 0x40;

pub const PF_CAP_MAX_TX_PAYLOAD_LEN: usize = 0x48;

pub const PF_CAP_NUM_PHYSICAL_FUNCTIONS: usize = 0x50;

pub const PF_CAP_MAX_MSIX_ENTRIES: usize = 0x58;

pub const PF_CAP_PF_MAX_MSIX_ENTRIES: usize = 0x60;

/// Where the SR-IOV configuration zone starts.
pub const PF_SRIOV_ZONE_START: usize = 0x300;

/// Length of the SR-IOV configuration zone.
pub const PF_SRIOV_ZONE_LEN: usize = 0x80;

/// Offset of the shared-memory window, relative to the zone.
pub const PF_SRIOV_SHARED_MEM_OFF: usize = 0x70;

/// Size of the shared-memory window.
pub const PF_SRIOV_SHARED_MEM_SZ: usize = 0x78;

/// Where the shared-memory window of a privileged client starts.
pub const PF_SRIOV_SHMEM_START: usize = 0x380;

/// A number to be stored in a register block: where, what, and in how many bytes.
pub struct Field {
    pub at: usize,
    pub value: u64,
    pub len: usize,
}

/// What a field says.
pub open spec fn field(at: usize, value: int, len: int) -> (int, int, nat) {
    (at as int, value, len as nat)
}

/// A register block with the first `n` of the fields stored in it.
pub open spec fn with_fields(block: Seq<u8>, fields: Seq<(int, int, nat)>, n: nat) -> Seq<u8>
    decreases n,
{
    if n == 0 {
        block
    } else {
        let (at, value, len) = fields[n - 1];
        splice(with_fields(block, fields, (n - 1) as nat), at, le_bytes(value, len))
    }
}

/// A register block of a length that is zero but for some fields.
pub open spec fn block_of(len: nat, fields: Seq<(int, int, nat)>) -> Seq<u8> {
    with_fields(zero_bytes(len), fields, fields.len())
}

/// Whether fields lie within a block of a length and keep clear of one another.
pub open spec fn fields_fit(len: nat, fields: Seq<(int, int, nat)>) -> bool {
    &&& forall|i: int|
        0 <= i < fields.len() ==> 0 <= (#[trigger] fields[i]).0 && fields[i].0 + fields[i].2
            <= len
    &&& forall|i: int, j: int|
        0 <= i < j < fields.len() ==> (#[trigger] fields[i]).0 + fields[i].2 <= (
        #[trigger] fields[j]).0 || fields[j].0 + fields[j].2 <= fields[i].0
}

/// The bytes of a field that was stored are still there after the others were.
proof fn stored_field_stays(len: nat, fields: Seq<(int, int, nat)>, i: int, n: nat)
    requires
        fields_fit(len, fields),
        0 <= i < n <= fields.len(),
    ensures
        with_fields(zero_bytes(len), fields, n).len() == len,
        forall|k: int|
            0 <= k < fields[i].2 ==> #[trigger] with_fields(
                zero_bytes(len),
                fields,
                n,
            )[fields[i].0 + k] == le_bytes(fields[i].1, fields[i].2)[k],
    decreases n,
{
    block_len(len, fields, n);
    block_len(len, fields, (n - 1) as nat);
    le_bytes_len(fields[n - 1].1, fields[n - 1].2);
    if i < n - 1 {
        stored_field_stays(len, fields, i, (n - 1) as nat);
        let before = with_fields(zero_bytes(len), fields, (n - 1) as nat);
        assert forall|k: int| 0 <= k < fields[i].2 implies #[trigger] with_fields(
            zero_bytes(len),
            fields,
            n,
        )[fields[i].0 + k] == le_bytes(fields[i].1, fields[i].2)[k] by {
            assert(before[fields[i].0 + k] == le_bytes(fields[i].1, fields[i].2)[k]);
        }
    }
}

proof fn block_len(len: nat, fields: Seq<(int, int, nat)>, n: nat)
    requires
        n <= fields.len(),
    ensures
        with_fields(zero_bytes(len), fields, n).len() == len,
    decreases n,
{
    if n > 0 {
        block_len(len, fields, (n - 1) as nat);
    }
}

/// A block has the length that it was built with.
pub proof fn block_of_has_its_length(len: nat, fields: Seq<(int, int, nat)>)
    ensures
        block_of(len, fields).len() == len,
{
    block_len(len, fields, fields.len());
}

/// The bytes of a field of a block are those that were stored.
pub proof fn stored_field_is_there(len: nat, fields: Seq<(int, int, nat)>, i: int)
    requires
        fields_fit(len, fields),
        0 <= i < fields.len(),
    ensures
        forall|k: int|
            0 <= k < fields[i].2 ==> #[trigger] block_of(len, fields)[fields[i].0 + k] == le_bytes(
                fields[i].1,
                fields[i].2,
            )[k],
{
    stored_field_stays(len, fields, i, fields.len());
}

/// A field of a block reads as the number that was stored.
pub proof fn field_reads_back(len: nat, fields: Seq<(int, int, nat)>, i: int)
    requires
        fields_fit(len, fields),
        0 <= i < fields.len(),
    ensures
        block_of(len, fields).len() == len,
        fields[i].2 == 4 && 0 <= fields[i].1 < 0x1_0000_0000 ==> le32_at(
            block_of(len, fields),
            fields[i].0,
        ) == fields[i].1,
        fields[i].2 == 8 && 0 <= fields[i].1 < 0x1_0000_0000_0000_0000 ==> le64_at(
            block_of(len, fields),
            fields[i].0,
        ) == fields[i].1,
{
    stored_field_stays(len, fields, i, fields.len());
    le_bytes_read_back(fields[i].1);
    let block = block_of(len, fields);
    let at = fields[i].0;
    let part = le_bytes(fields[i].1, fields[i].2);
    if fields[i].2 == 4 || fields[i].2 == 8 {
        assert(block[at + 0] == part[0] && block[at + 1] == part[1] && block[at + 2] == part[2]
            && block[at + 3] == part[3]);
    }
    if fields[i].2 == 8 {
        assert(block[at + 4] == part[4] && block[at + 5] == part[5] && block[at + 6] == part[6]
            && block[at + 7] == part[7]);
    }
}

/// The fields of a list, as numbers.
pub open spec fn field_values(fields: Seq<Field>) -> Seq<(int, int, nat)> {
    fields.map_values(|f: Field| (f.at as int, f.value as int, f.len as nat))
}

/// Builds a register block.
fn build_block(len: usize, fields: &Vec<Field>) -> (ret: Vec<u8>)
    requires
        forall|i: int|
            0 <= i < fields@.len() ==> (#[trigger] fields@[i]).at + fields@[i].len <= len,
    ensures
        ret@ == block_of(len as nat, field_values(fields@)),
{
    let mut block = zeroes(len);
    let mut i: usize = 0;
    while i < fields.len()
        invariant
            i <= fields@.len(),
            block@.len() == len,
            block@ == with_fields(zero_bytes(len as nat), field_values(fields@), i as nat),
            forall|i: int|
                0 <= i < fields@.len() ==> (#[trigger] fields@[i]).at + fields@[i].len <= len,
        decreases fields@.len() - i,
    {
        put_le(&mut block, fields[i].at, fields[i].value, fields[i].len);
        i = i + 1;
    }
    block
}

fn push_field(fields: &mut Vec<Field>, at: usize, value: u64, len: usize)
    ensures
        final(fields)@ == old(fields)@.push((Field { at, value, len })),
        field_values(final(fields)@) == field_values(old(fields)@).push(
            (at as int, value as int, len as nat),
        ),
{
    fields.push(Field { at, value, len });
    assert(field_values(fields@) =~= field_values(old(fields)@).push(
        (at as int, value as int, len as nat),
    ));
}

/// The registers of a bare-metal physical function, relative to their window. The driver computes
/// the address of the shared-memory window from the base of the SR-IOV block, which is the BAR
/// itself, so that it finds the very windows that a virtual function's map exposes.
pub open spec fn pf_regs_fields() -> Seq<(int, int, nat)> {
    seq![
        field((PF_REG_SHM_OFF - PF_REGS_START) as usize, SHMEM_START as int, 8),
        field((PF_REG_DB_PAGE_OFF - PF_REGS_START) as usize, DOORBELLS_START as int, 8),
        field((PF_REG_DB_PAGE_SIZE - PF_REGS_START) as usize, DOORBELLS_LEN as int, 4),
        field((PF_REG_SRIOV_CFG_BASE_OFF - PF_REGS_START) as usize, 0, 8),
    ]
}

pub fn build_pf_regs() -> (ret: Vec<u8>)
    ensures
        ret@ == block_of(PF_REGS_LEN as nat, pf_regs_fields()),
{
    let mut fields: Vec<Field> = Vec::new();
    push_field(&mut fields, PF_REG_SHM_OFF - PF_REGS_START, SHMEM_START as u64, 8);
    push_field(&mut fields, PF_REG_DB_PAGE_OFF - PF_REGS_START, DOORBELLS_START as u64, 8);
    push_field(&mut fields, PF_REG_DB_PAGE_SIZE - PF_REGS_START, DOORBELLS_LEN as u64, 4);
    push_field(&mut fields, PF_REG_SRIOV_CFG_BASE_OFF - PF_REGS_START, 0, 8);
    assert(field_values(fields@) =~= pf_regs_fields());
    build_block(PF_REGS_LEN, &fields)
}

/// The resource limits in the capability zone. The queue maxima are those of the device; the other
/// limits are fixed: no virtual and one physical function, one doorbell page, 64 interrupts, and
/// payloads of up to 1514 bytes.
pub open spec fn pf_cap_fields(limits: QueueLimits) -> Seq<(int, int, nat)> {
    seq![
        field(PF_CAP_HW_CAPABILITIES, 0, 4),
        field(PF_CAP_FEATURE_FLAGS, 0, 4),
        field(PF_CAP_MAX_SEND_QUEUES, limits.max_sqs as int, 4),
        field(PF_CAP_MAX_RECEIVE_QUEUES, limits.max_rqs as int, 4),
        field(PF_CAP_MAX_COMPLETION_QUEUES, limits.max_cqs as int, 4),
        field(PF_CAP_MAX_EVENT_QUEUES, limits.max_eqs as int, 4),
        field(PF_CAP_MAX_CQ_MODERATION_CONTEXTS, 0, 4),
        field(PF_CAP_NUM_VIRTUAL_FUNCTIONS, 0, 4),
        field(PF_CAP_MAX_DOORBELL_PAGES, 1, 4),
        field(PF_CAP_MAX_MODERATED_COMPLETION_QUEUES, 0, 4),
        field(PF_CAP_MAX_TX_PAYLOAD_LEN, 1514, 4),
        field(PF_CAP_NUM_PHYSICAL_FUNCTIONS, 1, 4),
        field(PF_CAP_MAX_MSIX_ENTRIES, 64, 4),
        field(PF_CAP_PF_MAX_MSIX_ENTRIES, 64, 4),
    ]
}

pub fn build_pf_cap_regs(limits: &QueueLimits) -> (ret: Vec<u8>)
    ensures
        ret@ == block_of(PF_CAP_REGS_LEN as nat, pf_cap_fields(*limits)),
{
    let mut fields: Vec<Field> = Vec::new();
    push_field(&mut fields, PF_CAP_HW_CAPABILITIES, 0, 4);
    push_field(&mut fields, PF_CAP_FEATURE_FLAGS, 0, 4);
    push_field(&mut fields, PF_CAP_MAX_SEND_QUEUES, limits.max_sqs as u64, 4);
    push_field(&mut fields, PF_CAP_MAX_RECEIVE_QUEUES, limits.max_rqs as u64, 4);
    push_field(&mut fields, PF_CAP_MAX_COMPLETION_QUEUES, limits.max_cqs as u64, 4);
    push_field(&mut fields, PF_CAP_MAX_EVENT_QUEUES, limits.max_eqs as u64, 4);
    push_field(&mut fields, PF_CAP_MAX_CQ_MODERATION_CONTEXTS, 0, 4);
    push_field(&mut fields, PF_CAP_NUM_VIRTUAL_FUNCTIONS, 0, 4);
    push_field(&mut fields, PF_CAP_MAX_DOORBELL_PAGES, 1, 4);
    push_field(&mut fields, PF_CAP_MAX_MODERATED_COMPLETION_QUEUES, 0, 4);
    push_field(&mut fields, PF_CAP_MAX_TX_PAYLOAD_LEN, 1514, 4);
    push_field(&mut fields, PF_CAP_NUM_PHYSICAL_FUNCTIONS, 1, 4);
    push_field(&mut fields, PF_CAP_MAX_MSIX_ENTRIES, 64, 4);
    push_field(&mut fields, PF_CAP_PF_MAX_MSIX_ENTRIES, 64, 4);
    assert(field_values(fields@) =~= pf_cap_fields(*limits));
    build_block(PF_CAP_REGS_LEN, &fields)
}

/// The region-descriptor table: the version, and where the capability, doorbell and SR-IOV regions
/// lie. Status and control share the capability zone. The other regions (queue contexts,
/// moderation, scheduler, translation, debug) stay at base 0 and size 0, that is, absent.
pub open spec fn pf_desc_fields() -> Seq<(int, int, nat)> {
    seq![
        field(PF_DESC_VERSION_AT, PF_DESC_VERSION as int, 4),
        field(PF_DESC_CAP_ZONE_OFF, PF_CAP_ZONE_START as int, 8),
        field(PF_DESC_CAP_ZONE_SZ, PF_CAP_REGS_LEN as int, 4),
        field(PF_DESC_STATUS_ZONE_OFF, PF_CAP_ZONE_START as int, 8),
        field(PF_DESC_CONTROL_ZONE_OFF, PF_CAP_ZONE_START as int, 8),
        field(PF_DESC_DOORBELL_OFF, DOORBELLS_START as int, 8),
        field(PF_DESC_DOORBELL_SZ, DOORBELLS_LEN as int, 4),
        field(PF_DESC_SRIOV_OFF, PF_SRIOV_ZONE_START as int, 8),
        field(PF_DESC_SRIOV_SZ, PF_SRIOV_ZONE_LEN as int, 4),
        field(PF_DESC_SEND_WQ_CTX_OFF, 0, 8),
        field((PF_DESC_SEND_WQ_CTX_OFF + 8) as usize, 0, 4),
        field(PF_DESC_RECV_WQ_CTX_OFF, 0, 8),
        field((PF_DESC_RECV_WQ_CTX_OFF + 8) as usize, 0, 4),
        field(PF_DESC_CQ_CTX_OFF, 0, 8),
        field((PF_DESC_CQ_CTX_OFF + 8) as usize, 0, 4),
        field(PF_DESC_EQ_CTX_OFF, 0, 8),
        field((PF_DESC_EQ_CTX_OFF + 8) as usize, 0, 4),
        field(PF_DESC_CQ_MOD_CTX_OFF, 0, 8),
        field((PF_DESC_CQ_MOD_CTX_OFF + 8) as usize, 0, 4),
        field(PF_DESC_SCHEDULER_OFF, 0, 8),
        field((PF_DESC_SCHEDULER_OFF + 8) as usize, 0, 4),
        field(PF_DESC_XLATE_OFF, 0, 8),
        field((PF_DESC_XLATE_OFF + 8) as usize, 0, 4),
        field(PF_DESC_DEBUG_OFF, 0, 8),
        field((PF_DESC_DEBUG_OFF + 8) as usize, 0, 4),
    ]
}

/// Declares a region that is not implemented.
fn push_absent_region(fields: &mut Vec<Field>, at: usize)
    requires
        at < PF_DESC_LEN,
    ensures
        final(fields)@ == old(fields)@.push((Field { at, value: 0, len: 8 })).push(
            (Field { at: (at + 8) as usize, value: 0, len: 4 }),
        ),
        field_values(final(fields)@) == field_values(old(fields)@).push((at as int, 0, 8)).push(
            (at + 8, 0, 4),
        ),
{
    push_field(fields, at, 0, 8);
    push_field(fields, at + 8, 0, 4);
}

pub fn build_pf_desc() -> (ret: Vec<u8>)
    ensures
        ret@ == block_of(PF_DESC_LEN as nat, pf_desc_fields()),
{
    let mut fields: Vec<Field> = Vec::new();
    push_field(&mut fields, PF_DESC_VERSION_AT, PF_DESC_VERSION as u64, 4);
    push_field(&mut fields, PF_DESC_CAP_ZONE_OFF, PF_CAP_ZONE_START as u64, 8);
    push_field(&mut fields, PF_DESC_CAP_ZONE_SZ, PF_CAP_REGS_LEN as u64, 4);
    push_field(&mut fields, PF_DESC_STATUS_ZONE_OFF, PF_CAP_ZONE_START as u64, 8);
    push_field(&mut fields, PF_DESC_CONTROL_ZONE_OFF, PF_CAP_ZONE_START as u64, 8);
    push_field(&mut fields, PF_DESC_DOORBELL_OFF, DOORBELLS_START as u64, 8);
    push_field(&mut fields, PF_DESC_DOORBELL_SZ, DOORBELLS_LEN as u64, 4);
    push_field(&mut fields, PF_DESC_SRIOV_OFF, PF_SRIOV_ZONE_START as u64, 8);
    push_field(&mut fields, PF_DESC_SRIOV_SZ, PF_SRIOV_ZONE_LEN as u64, 4);
    push_absent_region(&mut fields, PF_DESC_SEND_WQ_CTX_OFF);
    push_absent_region(&mut fields, PF_DESC_RECV_WQ_CTX_OFF);
    push_absent_region(&mut fields, PF_DESC_CQ_CTX_OFF);
    push_absent_region(&mut fields, PF_DESC_EQ_CTX_OFF);
    push_absent_region(&mut fields, PF_DESC_CQ_MOD_CTX_OFF);
    push_absent_region(&mut fields, PF_DESC_SCHEDULER_OFF);
    push_absent_region(&mut fields, PF_DESC_XLATE_OFF);
    push_absent_region(&mut fields, PF_DESC_DEBUG_OFF);
    assert(field_values(fields@) =~= pf_desc_fields());
    build_block(PF_DESC_LEN, &fields)
}

/// The shared-memory descriptor in the SR-IOV zone, which directs a privileged client to the
/// shared-memory window.
pub open spec fn pf_sriov_fields() -> Seq<(int, int, nat)> {
    seq![
        field(PF_SRIOV_SHARED_MEM_OFF, PF_SRIOV_SHMEM_START - PF_SRIOV_ZONE_START, 8),
        field(PF_SRIOV_SHARED_MEM_SZ, SHMEM_LEN as int, 4),
    ]
}

pub fn build_pf_sriov_zone() -> (ret: Vec<u8>)
    ensures
        ret@ == block_of(PF_SRIOV_ZONE_LEN as nat, pf_sriov_fields()),
{
    let mut fields: Vec<Field> = Vec::new();
    push_field(
        &mut fields,
        PF_SRIOV_SHARED_MEM_OFF,
        (PF_SRIOV_SHMEM_START - PF_SRIOV_ZONE_START) as u64,
        8,
    );
    push_field(&mut fields, PF_SRIOV_SHARED_MEM_SZ, SHMEM_LEN as u64, 4);
    assert(field_values(fields@) =~= pf_sriov_fields());
    build_block(PF_SRIOV_ZONE_LEN, &fields)
}

/// The register map of a virtual function: version 1.0.1, the doorbell page, and the shared-memory
/// window.
pub open spec fn regmap_fields(shmem_start: usize) -> Seq<(int, int, nat)> {
    seq![
        field(0, 1, 2),
        field(2, 0, 1),
        field(3, 1, 1),
        field(8, DOORBELLS_START as int, 8),
        field(16, DOORBELLS_LEN as int, 2),
        field(24, shmem_start as int, 8),
        field(32, SHMEM_LEN as int, 2),
    ]
}

pub fn build_regmap(shmem_start: usize) -> (ret: Vec<u8>)
    ensures
        ret@ == block_of(REGMAP_LEN as nat, regmap_fields(shmem_start)),
{
    let mut fields: Vec<Field> = Vec::new();
    push_field(&mut fields, 0, 1, 2);
    push_field(&mut fields, 2, 0, 1);
    push_field(&mut fields, 3, 1, 1);
    push_field(&mut fields, 8, DOORBELLS_START as u64, 8);
    push_field(&mut fields, 16, DOORBELLS_LEN as u64, 2);
    push_field(&mut fields, 24, shmem_start as u64, 8);
    push_field(&mut fields, 32, SHMEM_LEN as u64, 2);
    assert(field_values(fields@) =~= regmap_fields(shmem_start));
    build_block(REGMAP_LEN, &fields)
}

/// The physical function's registers lead to the shared-memory and doorbell windows that the
/// virtual function's map exposes.
pub proof fn pf_registers_lead_to_the_vf_windows()
    ensures
        ({
            let pf = block_of(PF_REGS_LEN as nat, pf_regs_fields());
            let map = block_of(REGMAP_LEN as nat, regmap_fields(SHMEM_START));
            let base = PF_REGS_START as int;
            &&& le64_at(pf, PF_REG_SRIOV_CFG_BASE_OFF - base) + le64_at(pf, PF_REG_SHM_OFF - base)
                == SHMEM_START
            &&& le64_at(pf, PF_REG_DB_PAGE_OFF - base) == DOORBELLS_START
            &&& le32_at(pf, PF_REG_DB_PAGE_SIZE - base) == DOORBELLS_LEN
            &&& le64_at(map, 24) == SHMEM_START
            &&& le64_at(map, 8) == DOORBELLS_START
        }),
{
    field_reads_back(PF_REGS_LEN as nat, pf_regs_fields(), 0);
    field_reads_back(PF_REGS_LEN as nat, pf_regs_fields(), 1);
    field_reads_back(PF_REGS_LEN as nat, pf_regs_fields(), 2);
    field_reads_back(PF_REGS_LEN as nat, pf_regs_fields(), 3);
    field_reads_back(REGMAP_LEN as nat, regmap_fields(SHMEM_START), 3);
    field_reads_back(REGMAP_LEN as nat, regmap_fields(SHMEM_START), 5);
}

/// The offset and the size that the descriptor table gives for a region.
pub open spec fn described(desc: Seq<u8>, off_at: int, size_at: int) -> (int, int) {
    (le64_at(desc, off_at), le32_at(desc, size_at))
}

/// Every region that the descriptor table advertises lies within the BAR, the regions that are not
/// implemented have size 0, and the shared-memory window is found through the SR-IOV zone.
pub proof fn described_regions_lie_within_the_bar()
    ensures
        ({
            let desc = block_of(PF_DESC_LEN as nat, pf_desc_fields());
            let zone = block_of(PF_SRIOV_ZONE_LEN as nat, pf_sriov_fields());
            &&& le32_at(desc, PF_DESC_VERSION_AT as int) / 0x100_0000 == 2
            &&& described(desc, 0x48, 0x50) == (PF_CAP_ZONE_START as int, PF_CAP_REGS_LEN as int)
            &&& described(desc, 0x58, 0x50) == (PF_CAP_ZONE_START as int, PF_CAP_REGS_LEN as int)
            &&& described(desc, 0x60, 0x50) == (PF_CAP_ZONE_START as int, PF_CAP_REGS_LEN as int)
            &&& described(desc, 0xc8, 0xd0) == (DOORBELLS_START as int, DOORBELLS_LEN as int)
            &&& described(desc, 0x108, 0x110) == (
                PF_SRIOV_ZONE_START as int,
                PF_SRIOV_ZONE_LEN as int,
            )
            &&& described(desc, 0x68, 0x70) == (0int, 0int)
            &&& described(desc, 0x78, 0x80) == (0int, 0int)
            &&& described(desc, 0x88, 0x90) == (0int, 0int)
            &&& described(desc, 0x98, 0xa0) == (0int, 0int)
            &&& described(desc, 0xd8, 0xe0) == (0int, 0int)
            &&& described(desc, 0xe8, 0xf0) == (0int, 0int)
            &&& described(desc, 0xf8, 0x100) == (0int, 0int)
            &&& described(desc, 0x118, 0x120) == (0int, 0int)
            &&& PF_CAP_ZONE_START + PF_CAP_REGS_LEN <= BAR0_LEN
            &&& DOORBELLS_START + DOORBELLS_LEN <= BAR0_LEN
            &&& PF_SRIOV_ZONE_START + PF_SRIOV_ZONE_LEN <= BAR0_LEN
            &&& described(zone, 0x70, 0x78) == (
                PF_SRIOV_SHMEM_START - PF_SRIOV_ZONE_START,
                SHMEM_LEN as int,
            )
            &&& PF_SRIOV_SHMEM_START + SHMEM_LEN <= BAR0_LEN
        }),
{
    let n = PF_DESC_LEN as nat;
    let fields = pf_desc_fields();
    assert(fields.len() == 25);
    assert(fields_fit(n, fields));
    assert forall|i: int| 0 <= i < 25 implies {
        &&& #[trigger] fields[i].2 == 4 && 0 <= fields[i].1 < 0x1_0000_0000 ==> le32_at(
            block_of(n, fields),
            fields[i].0,
        ) == fields[i].1
        &&& fields[i].2 == 8 && 0 <= fields[i].1 < 0x1_0000_0000_0000_0000 ==> le64_at(
            block_of(n, fields),
            fields[i].0,
        ) == fields[i].1
    } by {
        field_reads_back(n, fields, i);
    }
    assert(fields[0].2 == 4 && fields[1].2 == 8 && fields[2].2 == 4 && fields[3].2 == 8
        && fields[4].2 == 8 && fields[5].2 == 8 && fields[6].2 == 4 && fields[7].2 == 8
        && fields[8].2 == 4 && fields[9].2 == 8 && fields[10].2 == 4 && fields[11].2 == 8
        && fields[12].2 == 4 && fields[13].2 == 8 && fields[14].2 == 4 && fields[15].2 == 8
        && fields[16].2 == 4 && fields[17].2 == 8 && fields[18].2 == 4 && fields[19].2 == 8
        && fields[20].2 == 4 && fields[21].2 == 8 && fields[22].2 == 4 && fields[23].2 == 8
        && fields[24].2 == 4);
    field_reads_back(PF_SRIOV_ZONE_LEN as nat, pf_sriov_fields(), 0);
    field_reads_back(PF_SRIOV_ZONE_LEN as nat, pf_sriov_fields(), 1);
}

/// The capability zone reports the device's queue maxima.
pub proof fn capability_zone_reports_queue_maxima(limits: QueueLimits)
    ensures
        ({
            let caps = block_of(PF_CAP_REGS_LEN as nat, pf_cap_fields(limits));
            &&& le32_at(caps, PF_CAP_MAX_SEND_QUEUES as int) == limits.max_sqs
            &&& le32_at(caps, PF_CAP_MAX_RECEIVE_QUEUES as int) == limits.max_rqs
            &&& le32_at(caps, PF_CAP_MAX_COMPLETION_QUEUES as int) == limits.max_cqs
            &&& le32_at(caps, PF_CAP_MAX_EVENT_QUEUES as int) == limits.max_eqs
            &&& le32_at(caps, PF_CAP_NUM_VIRTUAL_FUNCTIONS as int) == 0
            &&& le32_at(caps, PF_CAP_NUM_PHYSICAL_FUNCTIONS as int) == 1
        }),
{
    let n = PF_CAP_REGS_LEN as nat;
    let fields = pf_cap_fields(limits);
    assert(fields_fit(n, fields));
    field_reads_back(n, fields, 2);
    field_reads_back(n, fields, 3);
    field_reads_back(n, fields, 4);
    field_reads_back(n, fields, 5);
    field_reads_back(n, fields, 7);
    field_reads_back(n, fields, 11);
}

} // verus!
