//! The liveness announcement of the presence protocol.

use vstd::prelude::*;

verus! {

/// Reported health of the announcing device.
#[derive(Clone, Copy, PartialEq, Eq, Structural, Debug)]
pub enum HealthState {
    Good,
    Bad,
}

/// A liveness announcement: health state and the moment it was taken,
/// in milliseconds since the epoch.
#[derive(Clone, Copy, PartialEq, Eq, Structural, Debug)]
pub struct Hello {
    pub state: HealthState,
    pub timestamp: u128,
}

impl Hello {
    pub fn new(state: HealthState, timestamp: u128) -> (r: Hello)
        ensures
            r == (Hello { state, timestamp }),
    {
        Hello { state, timestamp }
    }

    pub fn get_state(&self) -> (r: &HealthState)
        ensures
            *r == self.state,
    {
        &self.state
    }

    pub fn get_timestamp(&self) -> (r: &u128)
        ensures
            *r == self.timestamp,
    {
        &self.timestamp
    }
}

} // verus!
