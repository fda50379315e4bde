//! The power-management marker and state vocabulary of the entity layer.

use vstd::prelude::*;

verus! {

/// Marks an entity whose power budget the management logic should steer.
#[derive(Debug, Clone, Copy, PartialEq, Eq, Structural)]
pub struct PowerConsumerAI;

/// Where a steered entity stands with its power budget.
#[derive(Debug, Clone, Copy, PartialEq, Eq, Structural)]
pub enum CurrentPowerState {
    Optimal,
    Low,
    Critical,
    SeekingCharger,
    Charging,
    BeamingPower,
    Idle,
}

} // verus!
