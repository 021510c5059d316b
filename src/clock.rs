use vstd::prelude::*;

verus! {

/// Relies on `SystemTime::elapsed`, called on `UNIX_EPOCH`: the wall clock,
/// in milliseconds since the Unix epoch, or zero for a clock set before it.
/// Nothing is promised of the value: the clock may be set back or forward.
#[verifier::external_body]
pub(crate) fn now_millis() -> (r: u64) {
    match std::time::UNIX_EPOCH.elapsed() {
        Ok(d) => d.as_millis() as u64,
        Err(_) => 0,
    }
}

} // verus!
