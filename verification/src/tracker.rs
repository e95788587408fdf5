//! Cross-hand player statistics (a tracker that records nothing yet).

use vstd::prelude::*;

use crate::types::{ActionType, SeatId, Street};

verus! {

pub struct StatsTracker;

impl StatsTracker {
    /// Records one action; the tracker keeps no statistics yet, so nothing changes.
    pub fn record_action(&mut self, seat: SeatId, street: Street, action: &ActionType)
        ensures
            *final(self) == *old(self),
    {
    }
}

} // verus!
