//! Verified core of the Radon operating system services: the SFS filesystem and the
//! structures filesystems share, device byte access, the NVMe command and queue logic,
//! the bootstrap and namespace protocols, GPT partition planning, and the PCI/ACPI
//! address arithmetic.

pub mod acpi;
pub mod arch;
pub mod block_protocol;
pub mod bootstrap;
pub mod dev;
mod clock;
mod text;
pub mod error;
pub mod fs;
pub mod init;
pub mod namespace;
pub mod nvme;
pub mod pci;
