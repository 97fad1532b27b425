//! Filesystem structures.

pub mod file;
pub mod sfs;
pub mod structures;
pub mod types;
