//! Fields of the CSTS (Controller Status) register.

use vstd::prelude::*;

verus! {

/// Whether the Ready bit of a CSTS value is set.
pub fn is_ready(csts: u32) -> (res: bool)
    ensures
        res == (csts % 2 == 1),
{
    assert((csts & 1 != 0) == (csts % 2 == 1)) by (bit_vector);
    csts & 1 != 0
}

/// Whether the Controller Fatal Status bit of a CSTS value is set.
pub fn is_fatal(csts: u32) -> (res: bool)
    ensures
        res == ((csts / 2) % 2 == 1),
{
    assert((csts & 2 != 0) == ((csts / 2) % 2 == 1)) by (bit_vector);
    csts & 2 != 0
}

/// Whether the Shutdown Status field of a CSTS value reports a completed shutdown.
pub fn shutdown_complete(csts: u32) -> (res: bool)
    ensures
        res == ((csts / 4) % 4 == 2),
{
    assert(((csts & 0xC) == 8) == ((csts / 4) % 4 == 2)) by (bit_vector);
    (csts & 0xC) == 8
}

} // verus!
