//! The PCI service: devices found on the buses, the answers to clients, and the ECAM address arithmetic.

pub mod access;
pub mod device;
pub mod protocol;
pub mod scan;
