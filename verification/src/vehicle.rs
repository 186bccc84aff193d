//! Vehicle parts and breakdowns.
use vstd::prelude::*;

verus! {

#[derive(Debug, Clone, Copy, PartialEq, Eq, Hash, Structural)]
pub enum Part {
    Tire,
    Battery,
    Alternator,
    FuelPump,
}

/// An active breakdown of one part.
#[derive(Debug, Clone, Copy, PartialEq, Eq, Structural)]
pub struct Breakdown {
    pub part: Part,
    pub day_started: i32,
}

/// Relative weights of the parts that can break.
#[derive(Debug, Clone, Copy, PartialEq, Eq, Structural)]
pub struct PartWeights {
    pub tire: u32,
    pub battery: u32,
    pub alt: u32,
    pub pump: u32,
}

} // verus!
