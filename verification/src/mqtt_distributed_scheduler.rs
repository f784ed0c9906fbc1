//! The scheduler that is to spread nodes over several processes joined by an MQTT
//! broker, under one namespace; it does nothing yet.
use vstd::prelude::*;

verus! {

/// A distributed scheduler over MQTT, with the namespace its topics live under.
pub struct Scheduler {
    namespace: String,
}

impl Scheduler {
    /// Prepares the nodes; there is nothing to prepare yet.
    pub fn init(&self) {
    }

    /// Runs one round of scheduling; there is nothing to run yet.
    pub fn schedule_once(&self) {
    }
}

} // verus!
