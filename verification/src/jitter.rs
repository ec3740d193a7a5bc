//! Start-up jitter of the flusher, so that a fleet-wide deploy does not
//! synchronize every pod's flush into the same Redis burst.

use vstd::prelude::*;
use rand::Rng;
use rand::rngs::ThreadRng;
use std::time::Duration;
use crate::duration::{duration_nanos, duration_as_millis, duration_from_millis};

verus! {

/// Upper bound of the jitter: enough to desynchronize fleet-wide flushes
/// without leaving records stranded for seconds at startup.
pub const MAX_JITTER_MS: u64 = 1_000;

#[verifier::external_type_specification]
#[verifier::external_body]
pub struct ExThreadRng(ThreadRng);

/// Calls `rand::thread_rng`, the lazily seeded generator of the current
/// thread. Nothing is stated of its state. On first use in a thread it
/// panics if the operating system's entropy source cannot seed it; that
/// depends on the machine, so no precondition can rule it out.
#[verifier::external_body]
fn thread_rng() -> ThreadRng {
    rand::thread_rng()
}

/// Calls `Rng::gen_range(0..bound)`, which rand documents as a value drawn
/// from the half-open range and panics only on an empty range (excluded
/// here). Which value comes back is left to chance.
#[verifier::external_body]
fn gen_below(rng: &mut ThreadRng, bound: u64) -> (r: u64)
    requires
        bound > 0,
    ensures
        r < bound,
{
    rng.gen_range(0..bound)
}

/// The exclusive bound of the jitter, in milliseconds, for a flush
/// interval of `interval_nanos`: a tenth of the interval in whole
/// milliseconds (truncated to 64 bits), clamped to `1..=MAX_JITTER_MS`.
pub open spec fn max_jitter_ms_spec(interval_nanos: nat) -> u64 {
    let tenth = ((interval_nanos / 1_000_000) / 10) % 0x1_0000_0000_0000_0000;
    if tenth < 1 {
        1
    } else if tenth > MAX_JITTER_MS {
        MAX_JITTER_MS
    } else {
        tenth as u64
    }
}

pub fn max_jitter_ms(flush_interval: &Duration) -> (m: u64)
    ensures
        m == max_jitter_ms_spec(duration_nanos(*flush_interval)),
        1 <= m <= MAX_JITTER_MS,
{
    let millis = duration_as_millis(flush_interval);
    let tenth: u64 = ((millis / 10) % 0x1_0000_0000_0000_0000u128) as u64;
    if tenth < 1 {
        1
    } else if tenth > MAX_JITTER_MS {
        MAX_JITTER_MS
    } else {
        tenth
    }
}

/// A random delay below `max_jitter_ms(flush_interval)` whole
/// milliseconds.
pub fn pick_jitter(flush_interval: Duration) -> (jitter: Duration)
    ensures
        duration_nanos(jitter) % 1_000_000 == 0,
        duration_nanos(jitter) / 1_000_000 < max_jitter_ms_spec(duration_nanos(flush_interval)),
{
    let bound = max_jitter_ms(&flush_interval);
    let mut rng = thread_rng();
    let jitter_ms = gen_below(&mut rng, bound);
    duration_from_millis(jitter_ms)
}

} // verus!
