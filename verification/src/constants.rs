//! Balance constants used by the rules in this crate.
use vstd::prelude::*;

verus! {

pub const ENCOUNTER_REPEAT_WINDOW_DAYS: u32 = 6;

pub const ROTATION_LOOKBACK_DAYS: u32 = 5;

pub const TRAVEL_HISTORY_WINDOW: usize = 10;

pub const EMERGENCY_REPAIR_COST: i64 = 1000;

pub const FORAGE_COOLDOWN_DAYS: u32 = 3;

} // verus!
