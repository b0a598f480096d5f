//! The handle of an open device.

use crate::property::PropMapping;
use vstd::prelude::*;

verus! {

/// An open mode-setting device: the descriptor of the connection to it, its
/// device number, whether this process holds exclusive control of it,
/// whether it is in use, and the identifiers of its properties.
pub struct AtomicDrmDevice {
    pub fd: i32,
    pub dev_id: u64,
    pub privileged: bool,
    pub active: bool,
    pub prop_mapping: PropMapping,
}

} // verus!
