//! Host-side control logic for a companion keyboard accessory: which devices
//! to claim, what to send them, and when a connection is given up.

pub mod active;
pub mod device;
pub mod info;
pub mod report;
pub mod scan;
pub mod worker;
