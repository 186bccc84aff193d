//! Daily stat ticks: fractional costs carried in millionths between days.
use crate::state::{DamageCause, GameState, Stats, MAX_HP, MAX_SANITY};
use vstd::prelude::*;

verus! {

/// Unapplied millionths of a stat point, carried between days.
#[derive(Debug, Clone, Copy, PartialEq, Eq, Structural)]
pub struct DailyRemainders {
    pub supplies: i32,
    pub sanity: i32,
    pub health: i32,
}

/// Stat changes applied by a daily tick.
#[derive(Debug, Clone, Copy, PartialEq, Eq, Structural)]
pub struct DailyTickOutcome {
    pub supplies_delta: i32,
    pub sanity_delta: i32,
    pub health_delta: i32,
}

impl DailyTickOutcome {
    /// No change.
    pub fn zero() -> (r: DailyTickOutcome)
        ensures
            r.supplies_delta == 0 && r.sanity_delta == 0 && r.health_delta == 0,
    {
        DailyTickOutcome { supplies_delta: 0, sanity_delta: 0, health_delta: 0 }
    }
}

/// Millionths in one stat point.
pub const SCALE: i64 = 1_000_000;

/// Whole points of `total` millionths, rounded half away from zero.
pub open spec fn whole_points(total: int) -> int {
    let q = if total >= 0 { total / 1_000_000 } else { -((-total) / 1_000_000) };
    let r = total - q * 1_000_000;
    let away = if r >= 500_000 { 1int } else if r <= -500_000 { -1int } else { 0int };
    q + away
}

/// Applies `scaled` millionths together with the carried remainder: returns
/// the whole points, rounded half away from zero, and keeps the rest carried.
pub fn carried_delta(scaled: i32, remainder: &mut i32) -> (delta: i32)
    ensures
        delta == whole_points(scaled + *old(remainder)),
        *final(remainder) == scaled + *old(remainder) - delta * 1_000_000,
        -500_000 <= *final(remainder) <= 500_000,
{
    let total: i64 = scaled as i64 + *remainder as i64;
    let q: i64 = total / SCALE;
    let r: i64 = total % SCALE;
    assert(q == (if total >= 0 { total / 1_000_000 } else { -((-total) / 1_000_000) }));
    assert(r == total - q * 1_000_000);
    let away: i64 = if r >= SCALE / 2 { 1 } else if r <= -(SCALE / 2) { -1 } else { 0 };
    let delta = q + away;
    let rest = total - delta * SCALE;
    *remainder = rest as i32;
    delta as i32
}

/// Carrying never loses or invents millionths: the whole points applied plus
/// what stays carried equal what was due.
pub proof fn lemma_carry_preserves_total(scaled: i32, remainder: i32, delta: i32, rest: i32)
    requires
        delta == whole_points(scaled + remainder),
        rest == scaled + remainder - delta * 1_000_000,
    ensures
        delta * 1_000_000 + rest == scaled + remainder,
{
}

/// Adds a supply change, keeping supplies at or above zero.
pub fn apply_supplies_delta(state: &mut GameState, delta: i32)
    requires
        i32::MIN <= old(state).stats.supplies + delta <= i32::MAX,
    ensures
        final(state).stats == (Stats {
            supplies: if delta == 0 {
                old(state).stats.supplies
            } else if old(state).stats.supplies + delta >= 0 {
                (old(state).stats.supplies + delta) as i32
            } else {
                0i32
            },
            ..old(state).stats
        }),
        *final(state) == (GameState { stats: final(state).stats, ..*old(state) }),
{
    if delta == 0 {
        return;
    }
    let supplies = state.stats.supplies + delta;
    state.stats.supplies = if supplies >= 0 { supplies } else { 0 };
}

/// Adds a sanity change, keeping sanity within `0..=10`.
pub fn apply_sanity_delta(state: &mut GameState, delta: i32)
    requires
        i32::MIN <= old(state).stats.sanity + delta <= i32::MAX,
    ensures
        final(state).stats == (Stats {
            sanity: if delta == 0 {
                old(state).stats.sanity
            } else {
                let s = old(state).stats.sanity + delta;
                if s < 0 { 0i32 } else if s > MAX_SANITY { MAX_SANITY } else { s as i32 }
            },
            ..old(state).stats
        }),
        *final(state) == (GameState { stats: final(state).stats, ..*old(state) }),
{
    if delta == 0 {
        return;
    }
    let sanity = state.stats.sanity + delta;
    state.stats.sanity = if sanity < 0 { 0 } else if sanity > MAX_SANITY { MAX_SANITY } else { sanity };
}

/// Adds a health change, keeping hp within `0..=10`. A loss that lowers hp is
/// ordinary daily attrition and is blamed on the breakdown cause.
pub fn apply_health_delta(state: &mut GameState, delta: i32)
    requires
        i32::MIN <= old(state).stats.hp + delta <= i32::MAX,
    ensures
        final(state).stats == (Stats {
            hp: if delta == 0 {
                old(state).stats.hp
            } else {
                let h = old(state).stats.hp + delta;
                if h < 0 { 0i32 } else if h > MAX_HP { MAX_HP } else { h as i32 }
            },
            ..old(state).stats
        }),
        final(state).last_damage == if delta < 0 && final(state).stats.hp < old(state).stats.hp {
            Some(DamageCause::Breakdown)
        } else {
            old(state).last_damage
        },
        *final(state) == (GameState {
            stats: final(state).stats,
            last_damage: final(state).last_damage,
            ..*old(state)
        }),
{
    if delta == 0 {
        return;
    }
    let previous_hp = state.stats.hp;
    let hp = previous_hp + delta;
    state.stats.hp = if hp < 0 { 0 } else if hp > MAX_HP { MAX_HP } else { hp };
    if delta < 0 && state.stats.hp < previous_hp {
        state.last_damage = Some(DamageCause::Breakdown);
    }
}

} // verus!
