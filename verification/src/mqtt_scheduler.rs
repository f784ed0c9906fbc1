//! The scheduler that is to route messages through an MQTT broker; it does nothing yet.
use vstd::prelude::*;

verus! {

/// A scheduler over MQTT; it holds no state yet.
pub struct Scheduler {}

impl Scheduler {
    /// Prepares the nodes; there is nothing to prepare yet.
    pub fn init(&self) {
    }

    /// Runs one round of scheduling; there is nothing to run yet.
    pub fn schedule_once(&self) {
    }
}

} // verus!
