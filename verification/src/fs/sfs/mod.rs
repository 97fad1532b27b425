//! Implementation of the Simple File System (SFS), version 1.0.
//!
//! The device is split in blocks of equal size; it holds, in this order, the super-block, the reserved area, the
//! data area, the free area and the index area, whose 64-byte entries describe the files.

pub mod error;
pub mod filesystem;
pub mod index_area;
pub mod index_scan;
pub mod name_string;
pub mod super_block;
pub mod time_stamp;
