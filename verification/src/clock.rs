//! Access to the system clock.

use vstd::prelude::*;

verus! {

/// Reads the system clock (`std::time::SystemTime::now`) and measures its distance to the Epoch
/// (`SystemTime::duration_since(UNIX_EPOCH)`), as whole seconds and sub-second nanoseconds.
///
/// What the clock reads is the machine's business: the only claim is the one `Duration` documents, that the
/// sub-second part is below one second. `None` stands for a clock before the Epoch.
#[verifier::external_body]
pub(crate) fn system_time_since_epoch() -> (res: Option<(u64, u32)>)
    ensures
        res matches Some(d) ==> d.1 < 1_000_000_000,
{
    match std::time::SystemTime::now().duration_since(std::time::UNIX_EPOCH) {
        Ok(d) => Some((d.as_secs(), d.subsec_nanos())),
        Err(_) => None,
    }
}

} // verus!
