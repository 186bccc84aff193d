//! Shared game enums, the stat block and the game state read by the rules.
use crate::camp::CampState;
use crate::data::Encounter;
use crate::journal::Continuity;
use crate::journey::seeds::RngBundle;
use crate::journey::TravelDayKind;
use crate::journey::phase::{IntentState, WaitState};
use std::collections::VecDeque;
use crate::otdeluxe_state::{OtDeluxeInventory, OtDeluxeState};
use crate::party::Party;
use crate::vehicle::Breakdown;
use crate::weather::{Weather, WeatherState};
use vstd::prelude::*;

verus! {

#[derive(Debug, Clone, Copy, PartialEq, Eq, Hash, Structural)]
pub enum Region {
    Heartland,
    RustBelt,
    Beltway,
}

#[derive(Debug, Clone, Copy, PartialEq, Eq, Hash, Structural)]
pub enum Season {
    Spring,
    Summer,
    Fall,
    Winter,
}

#[derive(Debug, Clone, Copy, PartialEq, Eq, Hash, Structural)]
pub enum GameMode {
    Classic,
    Deep,
}

impl GameMode {
    pub open spec fn is_deep_spec(self) -> bool {
        self == GameMode::Deep
    }

    /// Whether this is "The Deep End" mode.
    pub fn is_deep(self) -> (r: bool)
        ensures
            r == self.is_deep_spec(),
    {
        match self {
            GameMode::Deep => true,
            GameMode::Classic => false,
        }
    }
}

#[derive(Debug, Clone, Copy, PartialEq, Eq, Hash, Structural)]
pub enum PolicyKind {
    Balanced,
    Aggressive,
    Conservative,
    ResourceManager,
}

#[derive(Debug, Clone, Copy, PartialEq, Eq, Hash, Structural)]
pub enum PaceId {
    Steady,
    Heated,
    Blitz,
}

#[derive(Debug, Clone, Copy, PartialEq, Eq, Hash, Structural)]
pub enum DietId {
    Quiet,
    Mixed,
    Doom,
}

#[derive(Debug, Clone, Copy, PartialEq, Eq, Hash, Structural)]
pub enum CollapseCause {
    Hunger,
    Disease,
    Breakdown,
}

/// What last cost the party health.
#[derive(Debug, Clone, Copy, PartialEq, Eq, Hash, Structural)]
pub enum DamageCause {
    ExposureCold,
    ExposureHeat,
    Starvation,
    Disease,
    Vehicle,
    Breakdown,
}

/// How a run ended.
#[derive(Debug, Clone, Copy, PartialEq, Eq, Structural)]
pub enum Ending {
    Collapse { cause: CollapseCause },
}

/// The party's stat block.
#[derive(Debug, Clone, Copy, PartialEq, Eq, Structural)]
pub struct Stats {
    pub supplies: i32,
    pub hp: i32,
    pub sanity: i32,
    pub credibility: i32,
    pub morale: i32,
    pub allies: i32,
    pub pants: i32,
}

pub const MAX_HP: i32 = 10;

pub const MAX_SANITY: i32 = 10;

impl Stats {
    pub open spec fn default_spec() -> Stats {
        Stats {
            supplies: 10,
            hp: MAX_HP,
            sanity: MAX_SANITY,
            credibility: 5,
            morale: 5,
            allies: 2,
            pants: 0,
        }
    }
}

impl Default for Stats {
    fn default() -> (s: Self)
        ensures
            s == Stats::default_spec(),
    {
        Stats {
            supplies: 10,
            hp: MAX_HP,
            sanity: MAX_SANITY,
            credibility: 5,
            morale: 5,
            allies: 2,
            pants: 0,
        }
    }
}

/// One encounter seen recently, with the day and region where it happened.
#[derive(Debug, Clone)]
pub struct RecentEncounter {
    pub id: String,
    pub day: u32,
    pub region: Option<Region>,
}

impl RecentEncounter {
    pub fn new(id: String, day: u32, region: Region) -> (r: Self)
        ensures
            r.id == id,
            r.day == day,
            r.region == Some(region),
    {
        RecentEncounter { id, day, region: Some(region) }
    }
}

/// Persona modifiers that the rules read.
#[derive(Debug, Clone, Copy, PartialEq, Eq, Structural)]
pub struct PersonaMods {
    pub receipt_find_pct: i32,
    pub bribe_discount_pct: i32,
}

/// Whether the party is ready for the final hearing.
#[derive(Debug, Clone, Copy, PartialEq, Eq, Structural)]
pub struct BossReadiness {
    pub ready: bool,
}

/// Progress toward the final hearing.
#[derive(Debug, Clone, Copy, PartialEq, Eq, Structural)]
pub struct BossProgress {
    pub readiness: BossReadiness,
}

/// Tagged items carried by the party.
#[derive(Debug, Clone)]
pub struct Inventory {
    pub tags: Vec<String>,
}

/// The state of one run, as far as the rules in this crate read it.
pub struct GameState {
    pub day: u32,
    pub seed: u64,
    pub mode: GameMode,
    pub policy: Option<PolicyKind>,
    pub region: Region,
    pub stats: Stats,
    pub budget: i32,
    pub budget_cents: i64,
    pub bribes_spent_cents: i64,
    pub current_encounter: Option<Encounter>,
    pub breakdown: Option<Breakdown>,
    pub ending: Option<Ending>,
    pub last_damage: Option<DamageCause>,
    pub persona_id: Option<String>,
    pub party: Party,
    pub continuity: Continuity,
    pub boss: BossProgress,
    pub mods: PersonaMods,
    pub receipt_bonus_pct: i32,
    pub receipts: Vec<String>,
    pub inventory: Inventory,
    pub ot_deluxe: OtDeluxeState,
    pub weather_state: WeatherState,
    pub camp: CampState,
    pub logs: Vec<String>,
    pub rng_bundle: Option<RngBundle>,
    pub recent_travel_days: VecDeque<TravelDayKind>,
    pub rotation_travel_days: u32,
    pub suppress_stop_ratio: bool,
    pub current_day_kind: Option<TravelDayKind>,
    pub traveled_today: bool,
    pub partial_traveled_today: bool,
    pub disease_cooldown: u32,
    pub rest_requested: bool,
    pub endgame: EndgameState,
    pub intent: IntentState,
    pub wait: WaitState,
}

/// `a` and `b` agree on everything but the stats, budget, party, ending and
/// the saved account.
pub open spec fn same_world(a: GameState, b: GameState) -> bool {
    &&& a.day == b.day
    &&& a.seed == b.seed
    &&& a.mode == b.mode
    &&& a.policy == b.policy
    &&& a.region == b.region
    &&& a.current_encounter == b.current_encounter
    &&& a.breakdown == b.breakdown
    &&& a.bribes_spent_cents == b.bribes_spent_cents
    &&& a.rng_bundle == b.rng_bundle
    &&& a.last_damage == b.last_damage
    &&& a.persona_id == b.persona_id
    &&& a.boss == b.boss
    &&& a.mods == b.mods
    &&& a.receipt_bonus_pct == b.receipt_bonus_pct
    &&& a.receipts == b.receipts
    &&& a.inventory == b.inventory
    &&& a.ot_deluxe == b.ot_deluxe
    &&& a.weather_state == b.weather_state
    &&& a.camp == b.camp
    &&& a.logs == b.logs
    &&& a.recent_travel_days@ == b.recent_travel_days@
    &&& a.rotation_travel_days == b.rotation_travel_days
    &&& a.suppress_stop_ratio == b.suppress_stop_ratio
    &&& a.current_day_kind == b.current_day_kind
    &&& a.traveled_today == b.traveled_today
    &&& a.partial_traveled_today == b.partial_traveled_today
    &&& a.disease_cooldown == b.disease_cooldown
    &&& a.rest_requested == b.rest_requested
    &&& a.endgame == b.endgame
    &&& a.intent == b.intent
    &&& a.wait == b.wait
}

/// What the player asked the next day to be.
#[derive(Debug, Clone, Copy, PartialEq, Eq, Structural)]
pub enum DayIntent {
    Continue,
    Rest,
    Trade,
    Hunt,
    CrossingChoicePending,
}

/// Endgame controller state that the day accounting reads.
#[derive(Debug, Clone, Copy, PartialEq, Eq, Structural)]
pub struct EndgameState {
    pub active: bool,
    pub stop_cap_window: u16,
    pub stop_cap_max_full: u16,
    pub field_repair_used: bool,
    pub wear_reset_used: bool,
}

impl Default for GameState {
    /// A fresh run on day one with default stats and nothing pending.
    fn default() -> (gs: Self)
        ensures
            gs.day == 1,
            gs.seed == 0,
            gs.mode == GameMode::Classic,
            gs.policy is None,
            gs.region == Region::Heartland,
            gs.budget == 100,
            gs.budget_cents == 10_000,
            gs.bribes_spent_cents == 0,
            gs.boss == (BossProgress { readiness: BossReadiness { ready: false } }),
            gs.mods == (PersonaMods { receipt_find_pct: 0, bribe_discount_pct: 0 }),
            gs.receipt_bonus_pct == 0,
            gs.inventory.tags@.len() == 0,
            gs.ot_deluxe.inventory == (OtDeluxeInventory {
                food_lbs: 0,
                bullets: 0,
                clothes_sets: 0,
                spares_wheels: 0,
                spares_axles: 0,
                spares_tongues: 0,
            }),
            gs.ot_deluxe.members@.len() == 0,
            gs.weather_state == (WeatherState { today: Weather::Clear }),
            gs.camp == (CampState { rest_cooldown: 0, repair_cooldown: 0 }),
            gs.logs@.len() == 0,
            gs.rotation_travel_days == 0,
            !gs.traveled_today,
            !gs.partial_traveled_today,
            gs.disease_cooldown == 0,
            !gs.rest_requested,
            gs.endgame == (EndgameState {
                active: false,
                stop_cap_window: 1,
                stop_cap_max_full: 0,
                field_repair_used: false,
                wear_reset_used: false,
            }),
            gs.intent == (IntentState { pending: DayIntent::Continue, rest_days_remaining: 0 }),
            gs.wait == (WaitState { ferry_wait_days_remaining: 0, drying_days_remaining: 0 }),
            gs.continuity.clock_minutes == crate::journal::morning_spec(),
            gs.continuity.visual_content.edition == 0,
            gs.continuity.visual_content.selections@ == Map::<Seq<char>, String>::empty(),
            !gs.continuity.interactive_repairs,
            gs.continuity.activities == (crate::activities::TrailActivities {
                foraged_on: None,
                worked_at: None,
                local_word: None,
            }),
            !gs.continuity.abandoned,
            gs.continuity.driving_minutes_total == 0,
            gs.continuity.pace_fatigue_remainder == 0,
            gs.continuity.last_encounter_driving_minutes is None,
            gs.continuity.turn_journal_start is None,
            gs.continuity.ally_notice is None,
            gs.continuity.crew_care.reason == 0,
            gs.continuity.crew_care.strain@ == Map::<Seq<char>, u8>::empty(),
            gs.continuity.crew_care.last_check_day == 0,
            gs.continuity.scene_subject is None,
            gs.continuity.route_services.stop is None,
            gs.stats == Stats::default_spec(),
            gs.current_encounter is None,
            gs.breakdown is None,
            gs.ending is None,
            gs.last_damage is None,
            gs.persona_id is None,
            gs.party.members@.len() == 0,
            gs.continuity.crew_care.pending is None,
            gs.continuity.journal@.len() == 0,
            gs.receipts@.len() == 0,
            gs.rng_bundle is None,
            gs.recent_travel_days@.len() == 0,
            gs.current_day_kind is None,
            !gs.suppress_stop_ratio,
            !gs.endgame.active,
    {
        GameState {
            day: 1,
            seed: 0,
            mode: GameMode::Classic,
            policy: None,
            region: Region::Heartland,
            stats: Stats::default(),
            budget: 100,
            budget_cents: 10_000,
            bribes_spent_cents: 0,
            current_encounter: None,
            breakdown: None,
            ending: None,
            last_damage: None,
            persona_id: None,
            party: Party::new(),
            continuity: Continuity::new(),
            boss: BossProgress { readiness: BossReadiness { ready: false } },
            mods: PersonaMods { receipt_find_pct: 0, bribe_discount_pct: 0 },
            receipt_bonus_pct: 0,
            receipts: Vec::new(),
            inventory: Inventory { tags: Vec::new() },
            ot_deluxe: OtDeluxeState {
                inventory: OtDeluxeInventory {
                    food_lbs: 0,
                    bullets: 0,
                    clothes_sets: 0,
                    spares_wheels: 0,
                    spares_axles: 0,
                    spares_tongues: 0,
                },
                members: Vec::new(),
            },
            weather_state: WeatherState { today: Weather::Clear },
            camp: CampState { rest_cooldown: 0, repair_cooldown: 0 },
            logs: Vec::new(),
            rng_bundle: None,
            recent_travel_days: VecDeque::new(),
            rotation_travel_days: 0,
            suppress_stop_ratio: false,
            current_day_kind: None,
            traveled_today: false,
            partial_traveled_today: false,
            disease_cooldown: 0,
            rest_requested: false,
            endgame: EndgameState {
                active: false,
                stop_cap_window: 1,
                stop_cap_max_full: 0,
                field_repair_used: false,
                wear_reset_used: false,
            },
            intent: IntentState { pending: DayIntent::Continue, rest_days_remaining: 0 },
            wait: WaitState { ferry_wait_days_remaining: 0, drying_days_remaining: 0 },
        }
    }
}

} // verus!
