//! Small shared enumerations.

use vstd::prelude::*;

verus! {

/// The lifecycle state of a billing event.
#[derive(Clone, Copy, Debug, PartialEq, Eq, Structural)]
pub enum BillingEventStatus {
    Confirmed,
    Pending,
    Failed,
}

/// The deployment environment a record belongs to.
#[derive(Clone, Copy, Debug, PartialEq, Eq, Structural)]
pub enum Environment {
    Sandbox,
    Production,
}

/// The direction of a transfer relative to the tracked account.
#[derive(Clone, Copy, Debug, PartialEq, Eq, Structural)]
pub enum TransferDirection {
    Inflow,
    Outflow,
}

} // verus!
