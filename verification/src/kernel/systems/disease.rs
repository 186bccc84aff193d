//! Whole-number effects of an Oregon Trail Deluxe disease.
use crate::otdeluxe_state::OtDeluxeInventory;
use vstd::prelude::*;

verus! {

/// `value + delta`, floored at zero and capped at `u16::MAX`; unchanged for a zero delta.
pub open spec fn shifted_u16(value: u16, delta: i32) -> u16 {
    let next = value + delta;
    if delta == 0 {
        value
    } else if next < 0 {
        0
    } else if next > u16::MAX {
        u16::MAX
    } else {
        next as u16
    }
}

fn shift_u16(value: u16, delta: i32) -> (r: u16)
    ensures
        r == shifted_u16(value, delta),
{
    if delta == 0 {
        return value;
    }
    let next: i64 = value as i64 + delta as i64;
    if next < 0 {
        0
    } else if next > u16::MAX as i64 {
        u16::MAX
    } else {
        next as u16
    }
}

/// Applies a disease's change of general health and of food, each floored at
/// zero and capped at `u16::MAX`.
pub fn apply_otdeluxe_disease_deltas(
    health_general: &mut u16,
    inventory: &mut OtDeluxeInventory,
    health_general_delta: i32,
    food_lbs_delta: i32,
)
    ensures
        *final(health_general) == shifted_u16(*old(health_general), health_general_delta),
        *final(inventory) == (OtDeluxeInventory {
            food_lbs: shifted_u16(old(inventory).food_lbs, food_lbs_delta),
            ..*old(inventory)
        }),
{
    *health_general = shift_u16(*health_general, health_general_delta);
    inventory.food_lbs = shift_u16(inventory.food_lbs, food_lbs_delta);
}

} // verus!
