//! Block devices and their partitions.

pub mod partition;
pub mod protocol;
