//! Pace and ration tables.
use crate::mechanics::otdeluxe90s::{OtDeluxePace, OtDeluxePaceHealthPolicy, OtDeluxeRations, OtDeluxeRationsPolicy};
use vstd::prelude::*;

verus! {

/// Position of a ration level in the policy tables.
pub open spec fn ration_index(rations: OtDeluxeRations) -> int {
    match rations {
        OtDeluxeRations::Filling => 0,
        OtDeluxeRations::Meager => 1,
        OtDeluxeRations::BareBones => 2,
    }
}

/// Health penalty of a pace.
pub fn otdeluxe_pace_health_penalty(pace: OtDeluxePace, policy: &OtDeluxePaceHealthPolicy) -> (r: i32)
    ensures
        r == match pace {
            OtDeluxePace::Steady => policy.steady,
            OtDeluxePace::Strenuous => policy.strenuous,
            OtDeluxePace::Grueling => policy.grueling,
        },
{
    match pace {
        OtDeluxePace::Steady => policy.steady,
        OtDeluxePace::Strenuous => policy.strenuous,
        OtDeluxePace::Grueling => policy.grueling,
    }
}

/// Pounds of food per person at a ration level.
pub fn otdeluxe_rations_food_per_person(rations: OtDeluxeRations, policy: &OtDeluxeRationsPolicy) -> (r: u16)
    ensures
        r == policy.food_lbs_per_person@[ration_index(rations)],
{
    match rations {
        OtDeluxeRations::Filling => policy.food_lbs_per_person[0],
        OtDeluxeRations::Meager => policy.food_lbs_per_person[1],
        OtDeluxeRations::BareBones => policy.food_lbs_per_person[2],
    }
}

/// Health penalty of a ration level.
pub fn otdeluxe_rations_health_penalty(rations: OtDeluxeRations, policy: &OtDeluxeRationsPolicy) -> (r: i32)
    ensures
        r == policy.health_penalty@[ration_index(rations)],
{
    match rations {
        OtDeluxeRations::Filling => policy.health_penalty[0],
        OtDeluxeRations::Meager => policy.health_penalty[1],
        OtDeluxeRations::BareBones => policy.health_penalty[2],
    }
}

} // verus!
