//! Hunting under the Oregon Trail Deluxe rules.
use crate::otdeluxe_state::{alive_count, OtDeluxeInventory, OtDeluxeState};
use crate::rng::gen_range_inclusive_u16;
use crate::state::{GameState, Region};
use crate::weather::Weather;
use rand::rngs::SmallRng;
use vstd::prelude::*;

verus! {

/// Why a hunt cannot happen.
#[derive(Debug, Clone, Copy, PartialEq, Eq, Structural)]
pub enum HuntBlockReason {
    NoBullets,
    SevereWeather,
    CrowdedLocation,
}

/// Result of a hunt.
#[derive(Debug, Clone, Copy, PartialEq, Eq, Structural)]
pub enum HuntOutcome {
    Success { bullets_spent: u16, food_gained_lbs: u16 },
    Blocked(HuntBlockReason),
}

pub open spec fn is_severe_weather_spec(weather: Weather) -> bool {
    weather == Weather::Storm || weather == Weather::Smoke
}

/// Storms and smoke stop a hunt.
pub fn is_severe_weather(weather: Weather) -> (r: bool)
    ensures
        r == is_severe_weather_spec(weather),
{
    match weather {
        Weather::Storm | Weather::Smoke => true,
        _ => false,
    }
}

/// The Beltway is too crowded to hunt in.
pub fn is_crowded_location(region: Region) -> (r: bool)
    ensures
        r == (region == Region::Beltway),
{
    match region {
        Region::Beltway => true,
        _ => false,
    }
}

/// The first reason, in order, that blocks a hunt.
pub open spec fn hunt_block_spec(gs: GameState) -> Option<HuntBlockReason> {
    if gs.ot_deluxe.inventory.bullets == 0 {
        Some(HuntBlockReason::NoBullets)
    } else if is_severe_weather_spec(gs.weather_state.today) {
        Some(HuntBlockReason::SevereWeather)
    } else if gs.region == Region::Beltway {
        Some(HuntBlockReason::CrowdedLocation)
    } else {
        None
    }
}

pub fn hunt_block_reason(gs: &GameState) -> (r: Option<HuntBlockReason>)
    ensures
        r == hunt_block_spec(*gs),
{
    if gs.ot_deluxe.inventory.bullets == 0 {
        return Some(HuntBlockReason::NoBullets);
    }
    if is_severe_weather(gs.weather_state.today) {
        return Some(HuntBlockReason::SevereWeather);
    }
    if is_crowded_location(gs.region) {
        return Some(HuntBlockReason::CrowdedLocation);
    }
    None
}

/// Pounds the living party can carry: one hundred each, saturating.
pub open spec fn carry_cap_spec(gs: GameState) -> u16 {
    let alive: u16 = if alive_count(gs.ot_deluxe.members@) <= u16::MAX {
        alive_count(gs.ot_deluxe.members@) as u16
    } else {
        u16::MAX
    };
    if alive as int * 100 <= u16::MAX { (alive as int * 100) as u16 } else { u16::MAX }
}

pub fn carry_cap_lbs(gs: &GameState) -> (r: u16)
    ensures
        r == carry_cap_spec(*gs),
{
    let alive = gs.ot_deluxe.alive_party_count() as u32;
    if alive * 100 <= u16::MAX as u32 { (alive * 100) as u16 } else { u16::MAX }
}

/// A count as `u16`, saturating at `u16::MAX`.
pub fn clamp_u16(value: u32) -> (r: u16)
    ensures
        r == (if value <= u16::MAX { value as u16 } else { u16::MAX }),
{
    if value <= u16::MAX as u32 {
        value as u16
    } else {
        u16::MAX
    }
}

/// Food gained from a shot: bullets times pounds per bullet, capped by what can be carried.
pub open spec fn food_gained_spec(gs: GameState, bullets_spent: u16, food_per_bullet: u16) -> u16 {
    let shot = bullets_spent as int * food_per_bullet as int;
    let cap = carry_cap_spec(gs) as int;
    (if shot <= cap { shot } else { cap }) as u16
}

/// The state after a hunt that spent `bullets` and gained `food`.
pub open spec fn hunted(old: GameState, new: GameState, bullets: u16, food: u16) -> bool {
    let inv = old.ot_deluxe.inventory;
    new == GameState {
        ot_deluxe: OtDeluxeState {
            inventory: OtDeluxeInventory {
                bullets: inv.bullets.saturating_sub(bullets),
                food_lbs: inv.food_lbs.saturating_add(food),
                ..inv
            },
            ..old.ot_deluxe
        },
        ..old
    }
}

fn apply_hunt(gs: &mut GameState, bullets_spent: u16, food_per_bullet: u16) -> (r: HuntOutcome)
    requires
        bullets_spent <= 40,
        food_per_bullet <= 6,
    ensures
        r == (HuntOutcome::Success {
            bullets_spent,
            food_gained_lbs: food_gained_spec(*old(gs), bullets_spent, food_per_bullet),
        }),
        hunted(*old(gs), *final(gs), bullets_spent, food_gained_spec(*old(gs), bullets_spent, food_per_bullet)),
{
    assert(bullets_spent as u32 * food_per_bullet as u32 <= 240) by (nonlinear_arith)
        requires
            bullets_spent <= 40,
            food_per_bullet <= 6,
    ;
    let food_shot = bullets_spent as u32 * food_per_bullet as u32;
    let carry_cap = carry_cap_lbs(gs);
    let capped = if food_shot <= carry_cap as u32 { food_shot } else { carry_cap as u32 };
    let food_gained = clamp_u16(capped);
    gs.ot_deluxe.inventory.bullets = gs.ot_deluxe.inventory.bullets.saturating_sub(bullets_spent);
    gs.ot_deluxe.inventory.food_lbs = gs.ot_deluxe.inventory.food_lbs.saturating_add(food_gained);
    HuntOutcome::Success { bullets_spent, food_gained_lbs: food_gained }
}

/// Resolves a hunt with given draws: `bullets_spent` of the bullets, each
/// yielding `food_per_bullet` pounds. Blocked hunts change nothing.
pub fn resolve_hunt_with_draws(gs: &mut GameState, bullets_spent: u16, food_per_bullet: u16) -> (r: HuntOutcome)
    requires
        1 <= bullets_spent <= 40,
        2 <= food_per_bullet <= 6,
    ensures
        match hunt_block_spec(*old(gs)) {
            Some(reason) => r == HuntOutcome::Blocked(reason) && *final(gs) == *old(gs),
            None => {
                &&& r == (HuntOutcome::Success {
                    bullets_spent,
                    food_gained_lbs: food_gained_spec(*old(gs), bullets_spent, food_per_bullet),
                })
                &&& hunted(*old(gs), *final(gs), bullets_spent, food_gained_spec(*old(gs), bullets_spent, food_per_bullet))
            },
        },
{
    if let Some(blocked) = hunt_block_reason(gs) {
        return HuntOutcome::Blocked(blocked);
    }
    apply_hunt(gs, bullets_spent, food_per_bullet)
}

/// Resolves a hunt with random draws: between one and the bullets on hand (at
/// most forty) are spent, each yielding two to six pounds.
pub fn resolve_hunt_with_rng(gs: &mut GameState, rng: &mut SmallRng) -> (r: HuntOutcome)
    ensures
        match hunt_block_spec(*old(gs)) {
            Some(reason) => r == HuntOutcome::Blocked(reason) && *final(gs) == *old(gs) && *final(rng) == *old(rng),
            None => exists|spent: u16, per: u16|
                {
                    &&& 1 <= spent <= old(gs).ot_deluxe.inventory.bullets && spent <= 40
                    &&& 2 <= per <= 6
                    &&& r == (HuntOutcome::Success {
                        bullets_spent: spent,
                        food_gained_lbs: food_gained_spec(*old(gs), spent, per),
                    })
                    &&& #[trigger] hunted(*old(gs), *final(gs), spent, food_gained_spec(*old(gs), spent, per))
                },
        },
{
    if let Some(blocked) = hunt_block_reason(gs) {
        return HuntOutcome::Blocked(blocked);
    }
    let available = gs.ot_deluxe.inventory.bullets;
    let max_spend: u16 = if available < 1 { 1 } else if available > 40 { 40 } else { available };
    let bullets_spent = gen_range_inclusive_u16(rng, 1, max_spend);
    let food_per_bullet = gen_range_inclusive_u16(rng, 2, 6);
    apply_hunt(gs, bullets_spent, food_per_bullet)
}

/// Resolves a hunt without randomness: one bullet, two pounds.
pub fn resolve_hunt(gs: &mut GameState) -> (r: HuntOutcome)
    ensures
        match hunt_block_spec(*old(gs)) {
            Some(reason) => r == HuntOutcome::Blocked(reason) && *final(gs) == *old(gs),
            None => {
                &&& r == (HuntOutcome::Success { bullets_spent: 1, food_gained_lbs: food_gained_spec(*old(gs), 1, 2) })
                &&& hunted(*old(gs), *final(gs), 1, food_gained_spec(*old(gs), 1, 2))
            },
        },
{
    resolve_hunt_with_draws(gs, 1, 2)
}

/// A hunt never adds bullets or removes food, and the food gained is at most
/// what the party can carry and six pounds per bullet spent.
pub proof fn lemma_hunt_bounds(old: GameState, new: GameState, spent: u16, per: u16)
    requires
        hunted(old, new, spent, food_gained_spec(old, spent, per)),
        per <= 6,
    ensures
        new.ot_deluxe.inventory.bullets <= old.ot_deluxe.inventory.bullets,
        new.ot_deluxe.inventory.food_lbs >= old.ot_deluxe.inventory.food_lbs,
        food_gained_spec(old, spent, per) <= carry_cap_spec(old),
        food_gained_spec(old, spent, per) <= 6 * spent,
{
    assert(spent as int * per as int <= 6 * spent as int) by (nonlinear_arith)
        requires
            per <= 6,
    ;
}

/// Only storms and smoke keep hunters in camp: with bullets on hand, outside
/// the Beltway, every other weather lets the hunt go ahead, while a storm or
/// smoke blocks it for the weather.
pub proof fn lemma_only_storm_and_smoke_block_hunts(gs: GameState)
    requires
        gs.ot_deluxe.inventory.bullets > 0,
        gs.region != Region::Beltway,
    ensures
        gs.weather_state.today != Weather::Storm && gs.weather_state.today != Weather::Smoke
            ==> hunt_block_spec(gs) is None,
        gs.weather_state.today == Weather::Storm || gs.weather_state.today == Weather::Smoke
            ==> hunt_block_spec(gs) == Some(HuntBlockReason::SevereWeather),
{
}

} // verus!
