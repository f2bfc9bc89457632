//! The hardware records that the management backend reports, reduced to
//! the fields that the fingerprint reads.
use vstd::prelude::*;

verus! {

/// The machine's base board.
#[derive(Debug, Clone)]
pub struct BaseBoard {
    pub manufacturer: Option<String>,
    pub product: Option<String>,
    pub serial_number: Option<String>,
}

/// A processor of the machine.
#[derive(Debug, Clone)]
pub struct Processor {
    pub name: Option<String>,
    pub processor_id: Option<String>,
}

/// A fixed, non-removable disk drive.
#[derive(Debug, Clone)]
pub struct DiskDrive {
    pub serial_number: Option<String>,
    pub model: Option<String>,
    pub index: u32,
}

/// A boot partition and the index of the disk that holds it.
#[derive(Debug, Clone, Copy, PartialEq, Eq)]
pub struct DiskPartition {
    pub disk_index: u32,
}

/// A video controller (display adapter).
#[derive(Debug, Clone)]
pub struct VideoController {
    pub name: Option<String>,
    pub adapter_compatibility: Option<String>,
    pub pnp_device_id: Option<String>,
}

/// An optional operating-system feature and its install state
/// (1 enabled, 2 disabled, 3 absent).
#[derive(Debug, Clone)]
pub struct OptionalFeature {
    pub name: String,
    pub install_state: u32,
}

} // verus!
