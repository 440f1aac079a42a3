//! Frame timing over the monotonic clock.

use vstd::prelude::*;

verus! {

/// Declares std::time::Instant, so that a timer can hold readings of the
/// monotonic clock; the type stays opaque.
#[verifier::external_type_specification]
#[verifier::external_body]
pub struct ExInstant(std::time::Instant);

/// Relies on std::time::Instant::now: an opaque reading of the monotonic
/// clock; nothing is promised of its value.
#[verifier::external_body]
fn now_instant() -> (r: std::time::Instant) {
    std::time::Instant::now()
}

/// Remembers when it was created and when it was last reset.
pub struct Timer {
    start_time: std::time::Instant,
    last_reset: std::time::Instant,
}

impl Timer {
    /// When the timer was created.
    pub closed spec fn started_at(&self) -> std::time::Instant {
        self.start_time
    }

    /// A timer starting now.
    pub fn new() -> Timer {
        Timer { start_time: now_instant(), last_reset: now_instant() }
    }

    /// Moves the reset mark to now; the creation mark stays.
    pub fn reset(&mut self)
        ensures
            final(self).started_at() == old(self).started_at(),
    {
        self.last_reset = now_instant();
    }
}

} // verus!
