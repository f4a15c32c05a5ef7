use vstd::prelude::*;

verus! {

/// Relies on std::time::SystemTime::now for the current wall-clock instant,
/// read as whole seconds since the Unix epoch. Nothing is promised of the
/// value read; a clock standing before the epoch reads as zero.
#[verifier::external_body]
pub(crate) fn now_seconds() -> u64 {
    match std::time::SystemTime::now().duration_since(std::time::UNIX_EPOCH) {
        Ok(d) => d.as_secs(),
        Err(_) => 0,
    }
}

} // verus!
