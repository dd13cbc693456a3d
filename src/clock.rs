//! The clock that sent-packet records are timed by.
use vstd::prelude::*;

verus! {

/// `tokio::time::Instant`, a point on the monotonic clock, carried through unread.
#[verifier::external_type_specification]
#[verifier::external_body]
pub struct ExInstant(tokio::time::Instant);

/// Relies on `tokio::time::Instant::now`: the current instant. Nothing is
/// promised of its value.
#[verifier::external_body]
fn instant_now() -> tokio::time::Instant {
    tokio::time::Instant::now()
}

/// Relies on `tokio::time::Instant::elapsed`: the time passed since `epoch`,
/// in whole microseconds. Nothing is promised of its value.
#[verifier::external_body]
fn micros_since(epoch: &tokio::time::Instant) -> u64 {
    epoch.elapsed().as_micros() as u64
}

/// A monotonic clock that reads microseconds since it was made.
pub struct Clock {
    epoch: tokio::time::Instant,
}

impl Clock {
    /// A clock that starts now.
    pub fn new() -> Clock {
        Clock { epoch: instant_now() }
    }

    /// Microseconds since the clock was made.
    pub fn now(&self) -> u64 {
        micros_since(&self.epoch)
    }
}

} // verus!
