//! Monotonic-clock readings for the elapsed-time display.
//!
//! A timestamp is opaque: nothing is assumed about what the clock
//! returns, and everything downstream is proved for every reading.
use vstd::prelude::*;

verus! {

#[verifier::external_type_specification]
#[verifier::external_body]
pub struct ExInstant(std::time::Instant);

/// Relies on std::time::Instant::now: an opaque reading of the
/// monotonic clock; nothing is assumed of its value.
pub assume_specification[ std::time::Instant::now ]() -> std::time::Instant;

/// Relies on std::time::Instant::elapsed: the time since `this`;
/// nothing is assumed of its value.
pub assume_specification[ std::time::Instant::elapsed ](
    this: &std::time::Instant,
) -> std::time::Duration;

/// Relies on std::time::Duration::as_millis: the duration in whole
/// milliseconds; nothing is assumed of its value.
pub assume_specification[ std::time::Duration::as_millis ](this: &std::time::Duration) -> u128;

/// The time since `start` in hundredths of a second, saturating at
/// `u64::MAX`. The value depends on the clock, so nothing is promised
/// of it; callers state what holds for every reading.
pub fn elapsed_centis(start: &std::time::Instant) -> u64 {
    let millis: u128 = start.elapsed().as_millis();
    let centis: u128 = millis / 10;
    if centis > u64::MAX as u128 {
        u64::MAX
    } else {
        centis as u64
    }
}

} // verus!
