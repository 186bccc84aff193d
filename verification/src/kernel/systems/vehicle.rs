//! Spare parts for breakdowns.
use crate::otdeluxe_state::OtDeluxeInventory;
use crate::rng::gen_range_u32;
use crate::vehicle::{Part, PartWeights};
use rand::rngs::SmallRng;
use vstd::prelude::*;

verus! {

/// Spare parts of the Oregon Trail Deluxe wagon.
#[derive(Debug, Clone, Copy, PartialEq, Eq, Structural)]
pub enum OtDeluxeSparePart {
    Wheel,
    Axle,
    Tongue,
}

pub open spec fn spare_for_breakdown_spec(part: Part) -> OtDeluxeSparePart {
    match part {
        Part::Battery => OtDeluxeSparePart::Axle,
        Part::Alternator => OtDeluxeSparePart::Tongue,
        Part::Tire | Part::FuelPump => OtDeluxeSparePart::Wheel,
    }
}

/// The spare that repairs a broken part.
pub fn otdeluxe_spare_for_breakdown(part: Part) -> (r: OtDeluxeSparePart)
    ensures
        r == spare_for_breakdown_spec(part),
{
    match part {
        Part::Battery => OtDeluxeSparePart::Axle,
        Part::Alternator => OtDeluxeSparePart::Tongue,
        Part::Tire | Part::FuelPump => OtDeluxeSparePart::Wheel,
    }
}

/// Count of a spare in the inventory.
pub open spec fn spare_count(inv: OtDeluxeInventory, spare: OtDeluxeSparePart) -> u8 {
    match spare {
        OtDeluxeSparePart::Wheel => inv.spares_wheels,
        OtDeluxeSparePart::Axle => inv.spares_axles,
        OtDeluxeSparePart::Tongue => inv.spares_tongues,
    }
}

/// Uses the matching spare when one is on hand; reports whether it did.
pub fn consume_otdeluxe_spare_for_breakdown(inventory: &mut OtDeluxeInventory, part: Part) -> (r: bool)
    ensures
        r == (spare_count(*old(inventory), spare_for_breakdown_spec(part)) > 0),
        r ==> *final(inventory) == (match spare_for_breakdown_spec(part) {
            OtDeluxeSparePart::Wheel => OtDeluxeInventory { spares_wheels: (old(inventory).spares_wheels - 1) as u8, ..*old(inventory) },
            OtDeluxeSparePart::Axle => OtDeluxeInventory { spares_axles: (old(inventory).spares_axles - 1) as u8, ..*old(inventory) },
            OtDeluxeSparePart::Tongue => OtDeluxeInventory { spares_tongues: (old(inventory).spares_tongues - 1) as u8, ..*old(inventory) },
        }),
        !r ==> *final(inventory) == *old(inventory),
{
    match otdeluxe_spare_for_breakdown(part) {
        OtDeluxeSparePart::Wheel => {
            if inventory.spares_wheels > 0 {
                inventory.spares_wheels = inventory.spares_wheels - 1;
                true
            } else {
                false
            }
        },
        OtDeluxeSparePart::Axle => {
            if inventory.spares_axles > 0 {
                inventory.spares_axles = inventory.spares_axles - 1;
                true
            } else {
                false
            }
        },
        OtDeluxeSparePart::Tongue => {
            if inventory.spares_tongues > 0 {
                inventory.spares_tongues = inventory.spares_tongues - 1;
                true
            } else {
                false
            }
        },
    }
}

/// Saturating total of the part weights.
pub open spec fn part_total(w: PartWeights) -> u32 {
    w.tire.saturating_add(w.battery).saturating_add(w.alt).saturating_add(w.pump)
}

/// The part whose cumulative (saturating) weight first exceeds the roll;
/// the tire when none does.
pub open spec fn part_for_roll(w: PartWeights, roll: u32) -> Part {
    let c1 = w.tire;
    let c2 = c1.saturating_add(w.battery);
    let c3 = c2.saturating_add(w.alt);
    let c4 = c3.saturating_add(w.pump);
    if roll < c1 {
        Part::Tire
    } else if roll < c2 {
        Part::Battery
    } else if roll < c3 {
        Part::Alternator
    } else if roll < c4 {
        Part::FuelPump
    } else {
        Part::Tire
    }
}

/// The part a given roll selects.
pub fn select_breakdown_part_with_roll(weights: &PartWeights, roll: u32) -> (r: Part)
    ensures
        r == part_for_roll(*weights, roll),
{
    let c1 = weights.tire;
    let c2 = c1.saturating_add(weights.battery);
    let c3 = c2.saturating_add(weights.alt);
    let c4 = c3.saturating_add(weights.pump);
    if roll < c1 {
        Part::Tire
    } else if roll < c2 {
        Part::Battery
    } else if roll < c3 {
        Part::Alternator
    } else if roll < c4 {
        Part::FuelPump
    } else {
        Part::Tire
    }
}

/// Draws the part that breaks, weighted by the part weights; the tire, with
/// no roll, when every weight is zero. Returns the part and the roll drawn.
pub fn select_breakdown_part_with_trace(rng: &mut SmallRng, weights: &PartWeights) -> (r: (Part, Option<u32>))
    ensures
        part_total(*weights) == 0 ==> r == (Part::Tire, None::<u32>) && *final(rng) == *old(rng),
        part_total(*weights) > 0 ==> (r.1 matches Some(roll) && roll < part_total(*weights) && r.0 == part_for_roll(
            *weights,
            roll,
        )),
{
    let total = weights.tire.saturating_add(weights.battery).saturating_add(weights.alt).saturating_add(weights.pump);
    if total == 0 {
        return (Part::Tire, None);
    }
    let roll = gen_range_u32(rng, 0, total);
    (select_breakdown_part_with_roll(weights, roll), Some(roll))
}

} // verus!
