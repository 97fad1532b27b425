//! The namespace service: mount points bound to driver names, and the resolution of paths against them.

pub mod client;
pub mod path;
pub mod protocol;
pub mod server;
pub mod root;
