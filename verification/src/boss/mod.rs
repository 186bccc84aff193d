//! The final hearing.
pub mod hearing;

use vstd::prelude::*;

verus! {

/// How the final hearing ended.
#[derive(Debug, Clone, Copy, PartialEq, Eq, Structural)]
pub enum BossOutcome {
    PassedCloture,
    SurvivedFlood,
    PantsEmergency,
    Exhausted,
}

/// The opposing committee.
#[derive(Debug, Clone)]
pub struct Boss {
    pub name: String,
    pub hp: i32,
}

} // verus!
