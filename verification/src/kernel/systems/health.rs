//! Health penalties of the Oregon Trail Deluxe rules.
use crate::mechanics::otdeluxe90s::OtDeluxeHealthPenalties;
use crate::otdeluxe_state::OtDeluxeInventory;
use crate::state::Season;
use vstd::prelude::*;

verus! {

/// Winter penalty when the party carries fewer clothing sets than it needs.
pub open spec fn clothing_penalty_spec(
    season: Season,
    inventory: OtDeluxeInventory,
    alive: u16,
    policy: OtDeluxeHealthPenalties,
) -> i32 {
    let needed = policy.clothing_sets_per_person as int * alive as int;
    if season != Season::Winter || policy.clothing_penalty_winter == 0 || policy.clothing_sets_per_person == 0 {
        0
    } else if (inventory.clothes_sets as int) < needed {
        policy.clothing_penalty_winter
    } else {
        0
    }
}

/// Health penalty for lacking winter clothing: applies in winter only, when
/// the clothing rule is on and the sets carried fall short of one allotment
/// per living member.
pub fn otdeluxe_clothing_health_penalty(
    season: Season,
    inventory: &OtDeluxeInventory,
    alive: u16,
    policy: &OtDeluxeHealthPenalties,
) -> (r: i32)
    ensures
        r == clothing_penalty_spec(season, *inventory, alive, *policy),
{
    if season != Season::Winter {
        return 0;
    }
    if policy.clothing_penalty_winter == 0 || policy.clothing_sets_per_person == 0 {
        return 0;
    }
    let sets: u32 = policy.clothing_sets_per_person as u32;
    let living: u32 = alive as u32;
    assert(sets * living <= 0xffff * 0xffff) by (nonlinear_arith)
        requires
            sets <= 0xffff,
            living <= 0xffff,
    ;
    let needed: u32 = sets * living;
    if (inventory.clothes_sets as u32) < needed {
        policy.clothing_penalty_winter
    } else {
        0
    }
}

/// `x` limited to the `i32` range.
pub open spec fn clamp_i32(x: int) -> i32 {
    if x < i32::MIN {
        i32::MIN
    } else if x > i32::MAX {
        i32::MAX
    } else {
        x as i32
    }
}

/// Health penalty of the afflicted: each sick member costs the illness
/// penalty and each injured member the injury penalty, the sum limited to the
/// `i32` range.
pub fn otdeluxe_affliction_health_penalty(sick: u16, injured: u16, policy: &OtDeluxeHealthPenalties) -> (r: i32)
    ensures
        r == clamp_i32(
            sick as int * policy.affliction_illness_penalty as int + injured as int
                * policy.affliction_injury_penalty as int,
        ),
{
    let s: i64 = sick as i64;
    let i: i64 = injured as i64;
    let ip: i64 = policy.affliction_illness_penalty as i64;
    let jp: i64 = policy.affliction_injury_penalty as i64;
    assert(-0x8000_0000_0000 <= s * ip <= 0x8000_0000_0000) by (nonlinear_arith)
        requires
            0 <= s <= 0xffff,
            -0x8000_0000 <= ip <= 0x7fff_ffff,
    ;
    assert(-0x8000_0000_0000 <= i * jp <= 0x8000_0000_0000) by (nonlinear_arith)
        requires
            0 <= i <= 0xffff,
            -0x8000_0000 <= jp <= 0x7fff_ffff,
    ;
    let a: i64 = s * ip;
    let b: i64 = i * jp;
    let total = a + b;
    if total < i32::MIN as i64 {
        i32::MIN
    } else if total > i32::MAX as i64 {
        i32::MAX
    } else {
        total as i32
    }
}

} // verus!
