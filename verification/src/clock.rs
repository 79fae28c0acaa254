//! The wall clock and random draws that the planning modules take as inputs.

use vstd::prelude::*;

verus! {

/// Bound on the magnitude of any Unix timestamp in seconds that the clock
/// reports.
pub const CLOCK_BOUND: i64 = 8_796_093_022_208;

/// The current Unix time in seconds.
///
/// Calls `chrono::Utc::now().timestamp()`. The value depends on the clock;
/// the contract claims only that it lies within chrono's representable range
/// (years -262143 to 262142), which keeps it below `2^43` in magnitude.
#[verifier::external_body]
pub(crate) fn now_unix_secs() -> (t: i64)
    ensures
        -CLOCK_BOUND < t < CLOCK_BOUND,
{
    chrono::Utc::now().timestamp()
}

/// A random number in `lo..hi`.
///
/// Calls `rand::Rng::gen_range` on `rand::thread_rng()`; the contract claims
/// only that the value lies in the half-open range, as the documentation
/// states (the range must not be empty, or the call panics).
#[verifier::external_body]
pub(crate) fn random_in_range(lo: u64, hi: u64) -> (r: u64)
    requires
        lo < hi,
    ensures
        lo <= r < hi,
{
    rand::Rng::gen_range(&mut rand::thread_rng(), lo..hi)
}

/// A fresh random (version 4) UUID in its hyphenated lower-case text form.
///
/// Calls `uuid::Uuid::new_v4()` and `to_string`; the contract claims only the
/// length of that form, 36 characters.
#[verifier::external_body]
pub(crate) fn new_uuid_string() -> (s: String)
    ensures
        s@.len() == 36,
{
    uuid::Uuid::new_v4().to_string()
}

} // verus!
