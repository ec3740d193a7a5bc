//! What the library relies on of `std::time::Duration`.

use vstd::prelude::*;
use std::time::Duration;

verus! {

/// The length of a `Duration` in nanoseconds: what `Duration::as_nanos`
/// returns.
pub uninterp spec fn duration_nanos(d: Duration) -> nat;

/// Calls `Duration::is_zero`, which std documents as true exactly when the
/// duration spans no time.
#[verifier::external_body]
pub fn duration_is_zero(d: &Duration) -> (z: bool)
    ensures
        z == (duration_nanos(*d) == 0),
{
    d.is_zero()
}

/// Calls `Duration::as_millis`, which std documents as the number of whole
/// milliseconds the duration spans.
#[verifier::external_body]
pub fn duration_as_millis(d: &Duration) -> (ms: u128)
    ensures
        ms as int == duration_nanos(*d) / 1_000_000,
{
    d.as_millis()
}

/// Calls `Duration::from_secs`: a duration of `secs` whole seconds.
#[verifier::external_body]
pub fn duration_from_secs(secs: u64) -> (d: Duration)
    ensures
        duration_nanos(d) == secs * 1_000_000_000,
{
    Duration::from_secs(secs)
}

/// Calls `Duration::from_millis`: a duration of `ms` milliseconds.
#[verifier::external_body]
pub fn duration_from_millis(ms: u64) -> (d: Duration)
    ensures
        duration_nanos(d) == ms * 1_000_000,
{
    Duration::from_millis(ms)
}

} // verus!
