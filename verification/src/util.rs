use vstd::prelude::*;

verus! {

/// Relies on the system clock (`std::time::SystemTime`): whole seconds since
/// the Unix epoch, or 0 if the clock reads before the epoch.  The result
/// depends on when the call is made, so nothing is promised of it.
#[verifier::external_body]
pub(crate) fn now_secs() -> u64 {
    match std::time::SystemTime::now().duration_since(std::time::UNIX_EPOCH) {
        Ok(d) => d.as_secs(),
        Err(_) => 0,
    }
}

} // verus!
