//! Trusted access to the host environment: the wall clock and the machine's
//! hostname. Both results depend on the machine and the moment, so the
//! contracts promise nothing about the values; every caller states what
//! holds of its own result whatever these return.

use vstd::prelude::*;

verus! {

/// Relies on `std::time::SystemTime::now`, read as whole milliseconds since
/// the Unix epoch (zero if the clock reports a time before the epoch).
#[verifier::external_body]
pub(crate) fn now_millis() -> u64 {
    std::time::SystemTime::now()
        .duration_since(std::time::SystemTime::UNIX_EPOCH)
        .map(|d| d.as_millis() as u64)
        .unwrap_or(0)
}

/// Relies on `hostname::get`: the machine's hostname, converted lossily to
/// a `String` (empty if the lookup fails).
#[verifier::external_body]
pub(crate) fn host_name() -> String {
    hostname::get()
        .map(|h| h.to_string_lossy().to_string())
        .unwrap_or_default()
}

} // verus!
