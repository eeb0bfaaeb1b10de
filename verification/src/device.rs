//! The identity by which an accessory is recognised.

use vstd::prelude::*;

verus! {

/// Identity of a human-interface device: the four numbers that a device
/// reports about itself. Two values are the same device slot exactly when all
/// four fields agree.
#[derive(Debug, PartialEq, Eq, Structural, Copy, Clone)]
pub struct KeydDeviceInfo {
    pub vendor_id: u16,
    pub product_id: u16,
    pub usage_page: u16,
    pub usage_id: u16,
}

} // verus!
