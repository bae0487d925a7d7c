//! PCIe Single Root I/O Virtualization (SR-IOV) extended capability.

use crate::save_restore::{RestoreError, SaveError};
use vstd::prelude::*;

verus! {

/// Supported VF page-size bitmap advertising 4 KB pages (bit 0), the standard minimum. Also the
/// reset value of the (writable) system page size.
pub const SUPPORTED_PAGE_SIZES: u32 = 0x1;

/// Total size of the SR-IOV extended capability structure: the header plus 15 dwords, through the
/// VF migration state array offset.
pub const SRIOV_CAP_LEN: usize = 0x40;

/// The identifier of the SR-IOV extended capability.
pub const SRIOV_CAPABILITY_ID: u16 = 0x0010;

/// Offsets within the capability.
pub const SRIOV_HEADER: u16 = 0x00;

pub const SRIOV_CONTROL_STATUS: u16 = 0x08;

pub const SRIOV_INITIAL_TOTAL_VFS: u16 = 0x0c;

pub const SRIOV_SUPPORTED_PAGE_SIZES: u16 = 0x1c;

pub const SRIOV_SYSTEM_PAGE_SIZE: u16 = 0x20;

/// PCIe SR-IOV extended capability emulator.
///
/// This advertises a structurally complete SR-IOV capability that reports zero virtual functions.
/// A physical-function driver that requires the capability to be present can read it and find no
/// VFs to bring up, so no virtual-function infrastructure is requested.
#[derive(Debug)]
pub struct SriovExtendedCapability {
    control: u16,
    system_page_size: u32,
}

/// The state of the capability, for saving it.
#[derive(Clone, Copy, Debug, PartialEq, Eq, Structural)]
pub struct SavedState {
    pub control: u16,
    pub system_page_size: u32,
}

/// What the dword at an offset reads. The registers that are not listed (capabilities, VF count,
/// offset, stride and device id, and the VF BARs) are zero, as no virtual functions exist.
pub open spec fn sriov_dword(state: SavedState, offset: u16) -> u32 {
    if offset == SRIOV_HEADER {
        (0x1_0000 + SRIOV_CAPABILITY_ID) as u32
    } else if offset == SRIOV_CONTROL_STATUS {
        state.control as u32
    } else if offset == SRIOV_SUPPORTED_PAGE_SIZES {
        SUPPORTED_PAGE_SIZES
    } else if offset == SRIOV_SYSTEM_PAGE_SIZE {
        state.system_page_size
    } else {
        0
    }
}

/// The state after a write. Only the control half (low 16 bits) of the control and status register
/// and the system page size are writable.
pub open spec fn sriov_written(state: SavedState, offset: u16, val: u32) -> SavedState {
    if offset == SRIOV_CONTROL_STATUS {
        SavedState { control: val as u16, ..state }
    } else if offset == SRIOV_SYSTEM_PAGE_SIZE {
        SavedState { system_page_size: val, ..state }
    } else {
        state
    }
}

/// The state after reset.
pub open spec fn sriov_initial() -> SavedState {
    SavedState { control: 0, system_page_size: SUPPORTED_PAGE_SIZES }
}

impl View for SriovExtendedCapability {
    type V = SavedState;

    closed spec fn view(&self) -> SavedState {
        SavedState { control: self.control, system_page_size: self.system_page_size }
    }
}

impl Default for SriovExtendedCapability {
    fn default() -> (ret: Self)
        ensures
            ret@ == sriov_initial(),
    {
        SriovExtendedCapability::new()
    }
}

impl SriovExtendedCapability {
    /// Creates an SR-IOV capability reporting zero virtual functions.
    pub fn new() -> (ret: Self)
        ensures
            ret@ == sriov_initial(),
    {
        SriovExtendedCapability { control: 0, system_page_size: SUPPORTED_PAGE_SIZES }
    }

    pub fn label(&self) -> (ret: &'static str)
        ensures
            ret@ == "sriov"@,
    {
        "sriov"
    }

    pub fn extended_capability_id(&self) -> (ret: u16)
        ensures
            ret == SRIOV_CAPABILITY_ID,
    {
        SRIOV_CAPABILITY_ID
    }

    pub fn capability_version(&self) -> (ret: u8)
        ensures
            ret == 1,
    {
        1
    }

    pub fn len(&self) -> (ret: usize)
        ensures
            ret == SRIOV_CAP_LEN,
    {
        SRIOV_CAP_LEN
    }

    pub fn read_u32(&self, offset: u16) -> (ret: u32)
        ensures
            ret == sriov_dword(self@, offset),
    {
        if offset == SRIOV_HEADER {
            self.extended_capability_id() as u32 + self.capability_version() as u32 * 0x1_0000
        } else if offset == SRIOV_CONTROL_STATUS {
            self.control as u32
        } else if offset == SRIOV_INITIAL_TOTAL_VFS {
            // Initial and total VFs are both zero.
            0
        } else if offset == SRIOV_SUPPORTED_PAGE_SIZES {
            SUPPORTED_PAGE_SIZES
        } else if offset == SRIOV_SYSTEM_PAGE_SIZE {
            self.system_page_size
        } else {
            0
        }
    }

    /// Writes a dword. A write to a read-only register is ignored. The control register is inert,
    /// because no virtual functions are advertised.
    pub fn write_u32(&mut self, offset: u16, val: u32)
        ensures
            final(self)@ == sriov_written(old(self)@, offset, val),
    {
        if offset == SRIOV_CONTROL_STATUS {
            self.control = val as u16;
        } else if offset == SRIOV_SYSTEM_PAGE_SIZE {
            self.system_page_size = val;
        }
    }

    pub fn reset(&mut self)
        ensures
            final(self)@ == sriov_initial(),
    {
        self.control = 0;
        self.system_page_size = SUPPORTED_PAGE_SIZES;
    }

    pub fn save(&mut self) -> (ret: Result<SavedState, SaveError>)
        ensures
            ret == Ok::<SavedState, SaveError>(old(self)@),
            final(self)@ == old(self)@,
    {
        Ok(SavedState { control: self.control, system_page_size: self.system_page_size })
    }

    pub fn restore(&mut self, state: SavedState) -> (ret: Result<(), RestoreError>)
        ensures
            ret == Ok::<(), RestoreError>(()),
            final(self)@ == state,
    {
        self.control = state.control;
        self.system_page_size = state.system_page_size;
        Ok(())
    }
}

/// Whatever is written, no virtual functions are ever advertised, and the header and the supported
/// page sizes stay what they are.
pub proof fn no_virtual_functions_whatever_is_written(state: SavedState, offset: u16, val: u32)
    ensures
        ({
            let after = sriov_written(state, offset, val);
            &&& sriov_dword(after, SRIOV_INITIAL_TOTAL_VFS) == 0
            &&& sriov_dword(after, SRIOV_HEADER) == sriov_dword(state, SRIOV_HEADER)
            &&& sriov_dword(after, SRIOV_SUPPORTED_PAGE_SIZES) == SUPPORTED_PAGE_SIZES
        }),
{
}

/// A writable register reads what was written, the control register its low half, and a write
/// changes no other register.
pub proof fn written_registers_read_back(state: SavedState, offset: u16, val: u32, other: u16)
    ensures
        ({
            let after = sriov_written(state, offset, val);
            &&& offset == SRIOV_SYSTEM_PAGE_SIZE ==> sriov_dword(after, offset) == val
            &&& offset == SRIOV_CONTROL_STATUS ==> sriov_dword(after, offset) == val % 0x1_0000
            &&& other != offset ==> sriov_dword(after, other) == sriov_dword(state, other)
        }),
{
    assert((val as u16) as u32 == val % 0x1_0000) by (bit_vector);
}

/// What the capability tells of itself: its identifier and version in its first dword, no virtual
/// functions, 4 KB pages, and, when it is new, that page size and no control bit; everything that
/// has no register is zero.
pub proof fn capability_tells_of_no_virtual_functions(state: SavedState, offset: u16)
    ensures
        sriov_dword(state, 0x00) == 0x0001_0010,
        sriov_dword(state, 0x08) == state.control,
        sriov_dword(state, 0x0c) == 0,
        sriov_dword(state, 0x1c) == 1,
        sriov_dword(state, 0x20) == state.system_page_size,
        offset != 0x00 && offset != 0x08 && offset != 0x1c && offset != 0x20 ==> sriov_dword(
            state,
            offset,
        ) == 0,
        sriov_initial().control == 0,
        sriov_initial().system_page_size == 1,
{
}

/// Only the control bits and the page size can be written.
pub proof fn other_registers_are_read_only(state: SavedState, offset: u16, val: u32)
    ensures
        offset != 0x08 && offset != 0x20 ==> sriov_written(state, offset, val) == state,
        sriov_written(state, 0x08, val).system_page_size == state.system_page_size,
        sriov_written(state, 0x08, val).control == val % 0x1_0000,
        sriov_written(state, 0x20, val).control == state.control,
        sriov_written(state, 0x20, val).system_page_size == val,
{
    assert((val as u16) as u32 == val % 0x1_0000) by (bit_vector);
}

} // verus!
