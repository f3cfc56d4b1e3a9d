//! The one clock access the dashboard makes: the current time, used only to
//! stamp a refresh.
use vstd::prelude::*;

verus! {

/// Relies on std::time::SystemTime::now, read from the system clock and
/// converted to milliseconds since the epoch; nothing is assumed about the
/// value. A clock before the epoch yields 0 and one out of range saturates,
/// so the call never panics.
#[verifier::external_body]
pub(crate) fn now_millis() -> i64 {
    match std::time::SystemTime::now().duration_since(std::time::UNIX_EPOCH) {
        Ok(d) => i64::try_from(d.as_millis()).unwrap_or(i64::MAX),
        Err(_) => 0,
    }
}

} // verus!
