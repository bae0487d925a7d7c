//! Why a device's state cannot be saved or restored.

use vstd::prelude::*;

verus! {

#[derive(Clone, Copy, Debug, PartialEq, Eq, Structural)]
pub enum SaveError {
    NotSupported,
}

#[derive(Clone, Copy, Debug, PartialEq, Eq, Structural)]
pub enum RestoreError {
    InvalidSavedState,
}

} // verus!
