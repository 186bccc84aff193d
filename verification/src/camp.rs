//! Camping: roadside gathering from camp, therapy and repairs.
use crate::activities::{can_activity_spec, performed, Activity, FORAGE_COOLDOWN_DAYS};
use crate::crew_care::same_account_except_care;
use crate::day_accounting::{record_day_kind, record_day_kind_state, lemma_record_day_kind_idempotent};
use crate::journey::TravelDayKind;
use crate::state::{same_world, GameState, Stats, MAX_HP, MAX_SANITY};
use crate::vehicle::Part;
use vstd::prelude::*;

verus! {

/// Days left before resting or repairing in camp again.
#[derive(Debug, Clone, Copy, PartialEq, Eq, Structural)]
pub struct CampState {
    pub rest_cooldown: u32,
    pub repair_cooldown: u32,
}

/// What a rest day gives and costs.
#[derive(Debug, Clone, Copy, PartialEq, Eq, Structural)]
pub struct RestConfig {
    pub sanity: i32,
    pub hp: i32,
    pub supplies: i32,
    pub day: u32,
    pub cooldown_days: u32,
    pub recovery_day: bool,
}

/// Camp tuning.
#[derive(Debug, Clone, Copy, PartialEq, Eq, Structural)]
pub struct CampConfig {
    pub rest: RestConfig,
    pub enabled: bool,
}

/// Result of a camp action: its log key, whether the party rested and the
/// change in supplies.
#[derive(Debug, Clone)]
pub struct CampOutcome {
    pub message: String,
    pub rested: bool,
    pub supplies_delta: i32,
}

fn outcome(message: &str, supplies_delta: i32) -> (o: CampOutcome)
    ensures
        o.message@ == message@,
        !o.rested,
        o.supplies_delta == supplies_delta,
{
    CampOutcome { message: String::from_str(message), rested: false, supplies_delta }
}

/// Days until gathering is allowed again.
pub open spec fn cooldown_left(gs: GameState) -> u32 {
    match gs.continuity.activities.foraged_on {
        None => 0u32,
        Some(day) => day.saturating_add(FORAGE_COOLDOWN_DAYS).saturating_sub(gs.day),
    }
}

/// Camp gathering: the same rule, cost and cooldown as roadside foraging.
/// On success the log records it; otherwise nothing changes.
pub fn camp_forage(gs: &mut GameState, cfg: &CampConfig) -> (o: CampOutcome)
    requires
        can_activity_spec(*old(gs), Activity::Forage) ==> old(gs).stats.sanity < i32::MAX,
    ensures
        can_activity_spec(*old(gs), Activity::Forage) ==> {
            &&& o.message@ == "log.camp.forage"@
            &&& o.supplies_delta == 2
            &&& !o.rested
            &&& exists|mid: GameState|
                {
                    &&& #[trigger] performed(*old(gs), mid, Activity::Forage)
                    &&& *final(gs) == GameState { logs: final(gs).logs, ..mid }
                    &&& final(gs).logs@ == mid.logs@.push(final(gs).logs@.last())
                    &&& final(gs).logs@.last()@ == "log.camp.forage"@
                }
        },
        !can_activity_spec(*old(gs), Activity::Forage) ==> {
            &&& *final(gs) == *old(gs)
            &&& o.message@ == if cooldown_left(*old(gs)) > 0 {
                "log.camp.forage.cooldown"@
            } else {
                "log.camp.forage.disabled"@
            }
            &&& o.supplies_delta == 0
            &&& !o.rested
        },
{
    let supplies_before = gs.stats.supplies;
    if !gs.perform_activity(Activity::Forage) {
        let message = if gs.forage_cooldown_days() > 0 {
            "log.camp.forage.cooldown"
        } else {
            "log.camp.forage.disabled"
        };
        return outcome(message, 0);
    }
    let ghost mid = *gs;
    gs.logs.push(String::from_str("log.camp.forage"));
    assert(*gs == GameState { logs: gs.logs, ..mid });
    outcome("log.camp.forage", gs.stats.supplies - supplies_before)
}

/// Camp therapy only records its log key.
pub fn camp_therapy(gs: &mut GameState, cfg: &CampConfig) -> (o: CampOutcome)
    ensures
        o.message@ == "log.camp.therapy"@,
        !o.rested,
        o.supplies_delta == 0,
        *final(gs) == *old(gs),
{
    outcome("log.camp.therapy", 0)
}

/// Camp repair with a spare only records its log key.
pub fn camp_repair_spare(gs: &mut GameState, cfg: &CampConfig, part: Part) -> (o: CampOutcome)
    ensures
        o.message@ == "log.camp.repair"@,
        !o.rested,
        o.supplies_delta == 0,
        *final(gs) == *old(gs),
{
    outcome("log.camp.repair", 0)
}

/// A makeshift camp repair only records its log key.
pub fn camp_repair_hack(gs: &mut GameState, cfg: &CampConfig) -> (o: CampOutcome)
    ensures
        o.message@ == "log.camp.repair.hack"@,
        !o.rested,
        o.supplies_delta == 0,
        *final(gs) == *old(gs),
{
    outcome("log.camp.repair.hack", 0)
}

/// A repair is possible while a part is broken.
pub fn can_repair(gs: &GameState, cfg: &CampConfig) -> (r: bool)
    ensures
        r == gs.breakdown is Some,
{
    gs.breakdown.is_some()
}

/// Therapy is always available.
pub fn can_therapy(gs: &GameState, cfg: &CampConfig) -> (r: bool)
    ensures
        r,
{
    true
}

/// Supplies after a rest and their change: a cost takes what is there, up to
/// the cost (never below zero); a gain is added.
pub open spec fn rest_supplies(supplies: i32, change: i32) -> (int, int) {
    if change < 0 {
        let available: int = if supplies > 0 { supplies as int } else { 0 };
        let actual: int = if -change <= available { -change } else { available };
        (supplies - actual, -actual)
    } else if change > 0 {
        (supplies + change, change as int)
    } else {
        (supplies as int, 0)
    }
}

/// `value + change` within `0..=max`; unchanged for a zero change.
pub open spec fn rest_clamped(value: i32, change: i32, max: i32) -> int {
    if change == 0 {
        value as int
    } else if value + change < 0 {
        0
    } else if value + change > max {
        max as int
    } else {
        value + change
    }
}

/// Why a rest cannot start: none when it can.
pub open spec fn rest_refusal(gs: GameState, cfg: CampConfig) -> Option<Seq<char>> {
    if gs.breakdown is Some || cfg.rest.day == 0 {
        Some("log.camp.rest.disabled"@)
    } else if gs.camp.rest_cooldown > 0 {
        Some("log.camp.rest.cooldown"@)
    } else {
        None
    }
}

/// A rest that starts keeps its arithmetic within `i32`.
pub open spec fn rest_fits(gs: GameState, cfg: CampConfig) -> bool {
    rest_refusal(gs, cfg) is None ==> {
        &&& cfg.rest.supplies != i32::MIN
        &&& gs.stats.supplies + cfg.rest.supplies <= i32::MAX
        &&& i32::MIN <= gs.stats.hp + cfg.rest.hp <= i32::MAX
        &&& i32::MIN <= gs.stats.sanity + cfg.rest.sanity <= i32::MAX
    }
}

/// The state after `days` rest days on the stats-adjusted state `base`: the
/// days pass and, on recovery days, each is recorded as a stop that the travel
/// ratio does not turn partial.
pub open spec fn rest_days_state(base: GameState, cfg: CampConfig, days: nat) -> GameState {
    let d: int = base.day + days;
    let counted = if cfg.rest.recovery_day && days > 0 {
        record_day_kind_state(base, TravelDayKind::NonTravel)
    } else {
        base
    };
    GameState { day: if d <= u32::MAX { d as u32 } else { u32::MAX }, ..counted }
}

/// Applies a rest's supply, health and sanity changes; returns the supply change.
fn apply_rest_stats(gs: &mut GameState, cfg: &CampConfig) -> (delta: i32)
    requires
        cfg.rest.supplies != i32::MIN,
        old(gs).stats.supplies + cfg.rest.supplies <= i32::MAX,
        i32::MIN <= old(gs).stats.hp + cfg.rest.hp <= i32::MAX,
        i32::MIN <= old(gs).stats.sanity + cfg.rest.sanity <= i32::MAX,
    ensures
        delta == rest_supplies(old(gs).stats.supplies, cfg.rest.supplies).1,
        *final(gs) == (GameState {
            stats: Stats {
                supplies: rest_supplies(old(gs).stats.supplies, cfg.rest.supplies).0 as i32,
                hp: rest_clamped(old(gs).stats.hp, cfg.rest.hp, MAX_HP) as i32,
                sanity: rest_clamped(old(gs).stats.sanity, cfg.rest.sanity, MAX_SANITY) as i32,
                ..old(gs).stats
            },
            ..*old(gs)
        }),
{
    let change = cfg.rest.supplies;
    let mut supplies_delta: i32 = 0;
    if change < 0 {
        let cost = -change;
        let available = if gs.stats.supplies > 0 { gs.stats.supplies } else { 0 };
        let actual = if cost <= available { cost } else { available };
        gs.stats.supplies = gs.stats.supplies - actual;
        supplies_delta = -actual;
    } else if change > 0 {
        gs.stats.supplies = gs.stats.supplies + change;
        supplies_delta = change;
    }
    if cfg.rest.hp != 0 {
        let h = gs.stats.hp + cfg.rest.hp;
        gs.stats.hp = if h < 0 { 0 } else if h > MAX_HP { MAX_HP } else { h };
    }
    if cfg.rest.sanity != 0 {
        let v = gs.stats.sanity + cfg.rest.sanity;
        gs.stats.sanity = if v < 0 { 0 } else if v > MAX_SANITY { MAX_SANITY } else { v };
    }
    supplies_delta
}

/// Passes the configured rest days, recording each as a stop on recovery days.
fn pass_rest_days(gs: &mut GameState, cfg: &CampConfig)
    ensures
        *final(gs) == rest_days_state(*old(gs), *cfg, cfg.rest.day as nat),
{
    let ghost base = *gs;
    let rest_days = cfg.rest.day;
    let mut i: u32 = 0;
    assert(*gs == rest_days_state(base, *cfg, 0));
    while i < rest_days
        invariant
            i <= rest_days,
            rest_days == cfg.rest.day,
            *gs == rest_days_state(base, *cfg, i as nat),
        decreases rest_days - i,
    {
        if cfg.rest.recovery_day {
            let ghost before = *gs;
            record_day_kind(gs, TravelDayKind::NonTravel);
            proof {
                if i > 0 {
                    let counted = record_day_kind_state(base, TravelDayKind::NonTravel);
                    lemma_record_day_kind_idempotent(base, TravelDayKind::NonTravel);
                    assert(before == GameState { day: before.day, ..counted });
                    assert(record_day_kind_state(before, TravelDayKind::NonTravel) == GameState {
                        day: before.day,
                        ..record_day_kind_state(counted, TravelDayKind::NonTravel)
                    });
                }
            }
        }
        gs.day = gs.day.saturating_add(1);
        i = i + 1;
    }
}

/// Rests in camp for the configured days: refused while broken down, when
/// resting is off, or during the cooldown. Otherwise supplies, health and
/// sanity change as configured, the rest days pass (recorded as stops on
/// recovery days), the cooldown starts, illness is held off for at least ten
/// days, crew strain clears and the log records the rest.
#[verifier::rlimit(100)]
pub fn camp_rest(gs: &mut GameState, cfg: &CampConfig) -> (o: CampOutcome)
    requires
        rest_fits(*old(gs), *cfg),
    ensures
        rest_refusal(*old(gs), *cfg) matches Some(m) ==> {
            &&& o.message@ == m
            &&& !o.rested
            &&& o.supplies_delta == 0
            &&& *final(gs) == *old(gs)
        },
        rest_refusal(*old(gs), *cfg) is None ==> {
            let (supplies, delta) = rest_supplies(old(gs).stats.supplies, cfg.rest.supplies);
            let base = GameState {
                stats: Stats {
                    supplies: supplies as i32,
                    hp: rest_clamped(old(gs).stats.hp, cfg.rest.hp, MAX_HP) as i32,
                    sanity: rest_clamped(old(gs).stats.sanity, cfg.rest.sanity, MAX_SANITY) as i32,
                    ..old(gs).stats
                },
                suppress_stop_ratio: cfg.rest.recovery_day || old(gs).suppress_stop_ratio,
                ..*old(gs)
            };
            let rested = rest_days_state(base, *cfg, cfg.rest.day as nat);
            &&& o.message@ == "log.camp.rest"@
            &&& o.rested
            &&& o.supplies_delta == delta
            &&& same_world(
                GameState {
                    camp: CampState { rest_cooldown: cfg.rest.cooldown_days, ..old(gs).camp },
                    disease_cooldown: if old(gs).disease_cooldown >= 10 { old(gs).disease_cooldown } else { 10 },
                    rest_requested: false,
                    logs: final(gs).logs,
                    ..rested
                },
                *final(gs),
            )
            &&& final(gs).stats == rested.stats
            &&& final(gs).party == old(gs).party
            &&& final(gs).ending == old(gs).ending
            &&& final(gs).budget == old(gs).budget
            &&& final(gs).budget_cents == old(gs).budget_cents
            &&& same_account_except_care(*old(gs), *final(gs))
            &&& final(gs).continuity.crew_care.strain@ == Map::<Seq<char>, u8>::empty()
            &&& final(gs).continuity.crew_care.pending is None
            &&& final(gs).continuity.crew_care.last_check_day == rested.day
            &&& final(gs).continuity.crew_care.reason == old(gs).continuity.crew_care.reason
            &&& final(gs).logs@ == old(gs).logs@.push(final(gs).logs@.last())
            &&& final(gs).logs@.last()@ == "log.camp.rest"@
        },
{
    if gs.breakdown.is_some() || cfg.rest.day == 0 {
        return outcome("log.camp.rest.disabled", 0);
    }
    if gs.camp.rest_cooldown > 0 {
        return outcome("log.camp.rest.cooldown", 0);
    }
    let supplies_delta = apply_rest_stats(gs, cfg);
    if cfg.rest.recovery_day {
        gs.suppress_stop_ratio = true;
    }
    pass_rest_days(gs, cfg);
    gs.camp.rest_cooldown = cfg.rest.cooldown_days;
    if gs.disease_cooldown < 10 {
        gs.disease_cooldown = 10;
    }
    gs.recover_crew();
    gs.rest_requested = false;
    gs.logs.push(String::from_str("log.camp.rest"));
    CampOutcome { message: String::from_str("log.camp.rest"), rested: true, supplies_delta }
}

} // verus!
