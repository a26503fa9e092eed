//! The listener: it accepts connections for as long as the process runs. A
//! failed accept is reported and the listener accepts again.

use crate::connection::{start, Action, ActionModel, Phase, PhaseModel};
use vstd::prelude::*;

verus! {

/// What the listener's driver does after an accept.
#[derive(Debug, Clone, PartialEq, Eq)]
pub enum Admission {
    /// Start a handler for the new connection, in this phase and with this
    /// first action, subscribe it to the broker's replies, and accept again.
    Serve(Phase, Action),
    /// Report the failure and accept again.
    Report,
}

/// What follows an accept: a handler that reads where the accept gave a
/// connection, a report where it failed. Either way the listener goes on.
pub fn on_accept(connected: bool) -> (admission: Admission)
    ensures
        match admission {
            Admission::Serve(phase, action) => connected && phase@ == PhaseModel::Reading
                && action@ == ActionModel::Read,
            Admission::Report => !connected,
        },
{
    if connected {
        let (phase, action) = start();
        Admission::Serve(phase, action)
    } else {
        Admission::Report
    }
}

} // verus!
