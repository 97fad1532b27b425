//! General structures shared by the filesystems.

pub mod bitmap;
pub mod block;
