//! Names of the services that the bootstrap server knows from the start.

use vstd::prelude::*;

verus! {

/// The name server.
pub const NAMESERVER: &'static str = "NAMESERVER";

/// The block device service.
pub const BLOCKSERVER: &'static str = "BLOCKSERVER";

/// The filesystem service.
pub const FSSERVER: &'static str = "FSSERVER";

} // verus!
