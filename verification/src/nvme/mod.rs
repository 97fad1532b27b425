//! NVMe driver logic: register fields, commands, PRP lists and queue rings.

pub mod aqa;
pub mod cap;
pub mod cc;
pub mod command;
pub mod csts;
pub mod namespace;
pub mod prp;
pub mod queue;
pub mod regs;
