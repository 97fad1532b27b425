//! The ACPI service: the MCFG records it hands out and the address arithmetic of its table mappings.

pub mod protocol;
pub mod table;
