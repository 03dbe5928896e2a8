use vstd::prelude::*;

verus! {

/// One of the two independent clocks that a time is measured by.
#[derive(Clone, Copy, Debug, PartialEq, Eq, Structural)]
pub enum TimingMethod {
    RealTime,
    GameTime,
}

/// A duration in milliseconds for each timing method; a method without a
/// value has not been timed.
#[derive(Clone, Copy, Debug, PartialEq, Eq, Structural)]
pub struct Time {
    pub real_time: Option<i64>,
    pub game_time: Option<i64>,
}

/// The smaller of two optional durations, where an absent value never wins.
pub open spec fn min_opt(a: Option<i64>, b: Option<i64>) -> Option<i64> {
    match (a, b) {
        (Some(x), Some(y)) => Some(if x <= y { x } else { y }),
        (Some(x), None) => Some(x),
        (None, y) => y,
    }
}

impl Time {
    pub open spec fn get(self, method: TimingMethod) -> Option<i64> {
        match method {
            TimingMethod::RealTime => self.real_time,
            TimingMethod::GameTime => self.game_time,
        }
    }

    pub open spec fn is_empty(self) -> bool {
        self.real_time.is_none() && self.game_time.is_none()
    }

    /// A time with neither method timed.
    pub fn new() -> (r: Time)
        ensures
            r.is_empty(),
    {
        Time { real_time: None, game_time: None }
    }

    /// A time of zero in both methods.
    pub fn zero() -> (r: Time)
        ensures
            r.real_time == Some(0i64),
            r.game_time == Some(0i64),
    {
        Time { real_time: Some(0), game_time: Some(0) }
    }

    /// The value of one timing method.
    pub fn method(&self, method: TimingMethod) -> (r: Option<i64>)
        ensures
            r == self.get(method),
    {
        match method {
            TimingMethod::RealTime => self.real_time,
            TimingMethod::GameTime => self.game_time,
        }
    }
}

/// The smaller of two optional durations, where an absent value never wins.
pub fn min_of(a: Option<i64>, b: Option<i64>) -> (r: Option<i64>)
    ensures
        r == min_opt(a, b),
{
    match (a, b) {
        (Some(x), Some(y)) => Some(if x <= y { x } else { y }),
        (Some(x), None) => Some(x),
        (None, y) => y,
    }
}

} // verus!
