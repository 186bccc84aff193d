//! Daily weather kinds.
use vstd::prelude::*;

verus! {

#[derive(Debug, Clone, Copy, PartialEq, Eq, Hash, Structural)]
pub enum Weather {
    Clear,
    Storm,
    HeatWave,
    ColdSnap,
    Smoke,
}

/// Today's weather.
#[derive(Debug, Clone, Copy, PartialEq, Eq, Structural)]
pub struct WeatherState {
    pub today: Weather,
}

} // verus!
