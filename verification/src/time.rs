use vstd::prelude::*;

verus! {

/// A desired delivery instant: a point on the wall clock, measured in
/// milliseconds. An item is ready once the current instant has reached it.
#[derive(Clone, Copy, PartialEq, Eq, Debug)]
pub struct DesiredTime {
    millis: i64,
}

impl View for DesiredTime {
    type V = int;

    closed spec fn view(&self) -> int {
        self.millis as int
    }
}

/// Relies on chrono::Local::now and chrono::DateTime::timestamp_millis: the
/// current wall-clock instant as milliseconds since the Unix epoch. The clock
/// is outside the program, so nothing is promised of the value.
#[verifier::external_body]
pub(crate) fn current_millis() -> i64 {
    chrono::Local::now().timestamp_millis()
}

impl DesiredTime {
    /// The current instant, read from the wall clock.
    pub fn now() -> DesiredTime {
        DesiredTime { millis: current_millis() }
    }

    /// The instant `delay` milliseconds from now, computed at the call, not
    /// deferred.
    pub fn after_millis(delay: u64) -> DesiredTime {
        DesiredTime::now().plus_millis(delay)
    }

    /// Wraps an already-known instant, given in milliseconds.
    pub fn at_millis(millis: i64) -> (r: DesiredTime)
        ensures
            r@ == millis as int,
    {
        DesiredTime { millis }
    }

    /// The instant `delay` milliseconds after this one, saturating at the
    /// largest representable instant.
    pub fn plus_millis(self, delay: u64) -> (r: DesiredTime)
        ensures
            self@ + delay <= i64::MAX ==> r@ == self@ + delay,
            self@ + delay > i64::MAX ==> r@ == i64::MAX as int,
    {
        let sum: i128 = self.millis as i128 + delay as i128;
        if sum > i64::MAX as i128 {
            DesiredTime { millis: i64::MAX }
        } else {
            DesiredTime { millis: sum as i64 }
        }
    }

    /// Whether this instant is at or before the other.
    pub fn le(&self, other: &DesiredTime) -> (r: bool)
        ensures
            r == (self@ <= other@),
    {
        self.millis <= other.millis
    }

    /// Whether this instant has been reached by the given current instant.
    pub fn is_ready_at(&self, now_millis: i64) -> (r: bool)
        ensures
            r == (now_millis as int >= self@),
    {
        now_millis >= self.millis
    }

    /// Whether this instant has been reached, judged against a fresh reading
    /// of the wall clock; the clock-independent logic is `is_ready_at`.
    pub fn is_ready(&self) -> bool {
        let now_millis = current_millis();
        self.is_ready_at(now_millis)
    }

    /// Milliseconds from a fresh reading of the wall clock until this instant,
    /// clamped at zero; the clock-independent logic is `millis_until_at`.
    pub fn time_from_now(&self) -> u64 {
        let now_millis = current_millis();
        self.millis_until_at(now_millis)
    }

    /// Milliseconds from the given current instant until this one; zero if it
    /// has already been reached, never negative and never wrapped around.
    pub fn millis_until_at(&self, now_millis: i64) -> (r: u64)
        ensures
            self@ <= now_millis as int ==> r == 0,
            self@ > now_millis as int ==> r as int == self@ - now_millis as int,
    {
        if self.millis <= now_millis {
            0
        } else {
            (self.millis as i128 - now_millis as i128) as u64
        }
    }
}

} // verus!
