//! The bootstrap protocol: how a process obtains the channels of the base services from init.

pub mod client;
pub mod order;
pub mod protocol;
pub mod registry;
pub mod services;
