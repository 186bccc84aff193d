//! Oregon Trail Deluxe policy data: paces, rations, occupations, store and
//! trail tables, and overrides of affliction weights.
use vstd::prelude::*;

verus! {

#[derive(Debug, Clone, Copy, PartialEq, Eq, Structural)]
pub enum OtDeluxePace {
    Steady,
    Strenuous,
    Grueling,
}

/// Health penalty of each pace.
#[derive(Debug, Clone, Copy, PartialEq, Eq, Structural)]
pub struct OtDeluxePaceHealthPolicy {
    pub steady: i32,
    pub strenuous: i32,
    pub grueling: i32,
}

impl Default for OtDeluxePaceHealthPolicy {
    fn default() -> (r: Self)
        ensures
            r.steady == 0 && r.strenuous == 5 && r.grueling == 10,
    {
        OtDeluxePaceHealthPolicy { steady: 0, strenuous: 5, grueling: 10 }
    }
}

#[derive(Debug, Clone, Copy, PartialEq, Eq, Structural)]
pub enum OtDeluxeRations {
    Filling,
    Meager,
    BareBones,
}

/// Food per person and health penalty of each ration level, in the order
/// filling, meager, bare bones.
#[derive(Debug, Clone, Copy)]
pub struct OtDeluxeRationsPolicy {
    pub food_lbs_per_person: [u16; 3],
    pub health_penalty: [i32; 3],
}

impl Default for OtDeluxeRationsPolicy {
    fn default() -> (r: Self)
        ensures
            r.food_lbs_per_person@ == seq![3u16, 2u16, 1u16],
            r.health_penalty@ == seq![0i32, 5i32, 10i32],
    {
        let r = OtDeluxeRationsPolicy { food_lbs_per_person: [3, 2, 1], health_penalty: [0, 5, 10] };
        assert(r.food_lbs_per_person@ =~= seq![3u16, 2u16, 1u16]);
        assert(r.health_penalty@ =~= seq![0i32, 5i32, 10i32]);
        r
    }
}

#[derive(Debug, Clone, Copy, PartialEq, Eq, Structural)]
pub enum OtDeluxeOccupation {
    Banker,
    Doctor,
    Merchant,
    Blacksmith,
    Carpenter,
    Saddlemaker,
    Farmer,
    Teacher,
}

#[derive(Debug, Clone, Copy, PartialEq, Eq, Structural)]
pub enum OtDeluxeTrailVariant {
    Main,
    SubletteCutoff,
    DallesShortcut,
    SubletteAndDallesShortcut,
}

/// Store base prices in cents.
#[derive(Debug, Clone, Copy, PartialEq, Eq, Structural)]
pub struct OtDeluxeStoreBasePricesCents {
    pub ox: u32,
    pub clothes_set: u32,
    pub bullet: u32,
    pub ammo_box: u32,
    pub food_lb: u32,
    pub wheel: u32,
    pub axle: u32,
    pub tongue: u32,
}

/// Most of each item that can be bought at once.
#[derive(Debug, Clone, Copy, PartialEq, Eq, Structural)]
pub struct OtDeluxeStoreMaxBuy {
    pub oxen: u16,
    pub ammo_boxes: u16,
    pub clothes_sets: u16,
    pub wheels: u16,
    pub axles: u16,
    pub tongues: u16,
    pub food_lbs: u16,
}

/// Points per surviving person by health label.
#[derive(Debug, Clone, Copy, PartialEq, Eq, Structural)]
pub struct OtDeluxeScorePointsPerPersonByHealth {
    pub good: u32,
    pub fair: u32,
    pub poor: u32,
    pub very_poor: u32,
}

/// Final score tuning.
#[derive(Debug, Clone, Copy, PartialEq, Eq, Structural)]
pub struct OtDeluxeScorePolicy {
    pub points_per_person_by_health: OtDeluxeScorePointsPerPersonByHealth,
    pub points_wagon: u32,
    pub points_ox: u32,
    pub points_spare_part: u32,
    pub points_clothes: u32,
    pub divisor_bullets: u32,
    pub divisor_food_lbs: u32,
    pub divisor_cash_cents: u32,
}

/// The whole-number penalties of the health rules: clothing needed per person
/// in winter and its penalty, and the penalty per sick or injured member.
#[derive(Debug, Clone, Copy, PartialEq, Eq, Structural)]
pub struct OtDeluxeHealthPenalties {
    pub clothing_sets_per_person: u16,
    pub clothing_penalty_winter: i32,
    pub affliction_illness_penalty: i32,
    pub affliction_injury_penalty: i32,
}

/// Starting cash of one occupation.
#[derive(Debug, Clone, Copy, PartialEq, Eq, Structural)]
pub struct OtDeluxeOccupationCash {
    pub occupation: OtDeluxeOccupation,
    pub starting_cash_dollars: u16,
}

/// Upper bounds of the health labels.
#[derive(Debug, Clone, Copy, PartialEq, Eq, Structural)]
pub struct OtDeluxeHealthLabelRanges {
    pub good_max: u16,
    pub fair_max: u16,
    pub poor_max: u16,
    pub very_poor_max: u16,
}

/// Days spent by resting, trading and hunting.
#[derive(Debug, Clone, Copy, PartialEq, Eq, Structural)]
pub struct OtDeluxeActionTimeCosts {
    pub rest_days_min: u8,
    pub rest_days_max: u8,
    pub trade_cost_days: u8,
    pub hunt_cost_days: u8,
}

/// Hunting tuning.
#[derive(Debug, Clone, Copy, PartialEq, Eq, Structural)]
pub struct OtDeluxeHuntPolicy {
    pub carry_cap_lbs_per_alive_member: u16,
}

/// Store tuning.
#[derive(Debug, Clone, Copy)]
pub struct OtDeluxeStorePolicy {
    pub buy_only_at_forts: bool,
    pub bullets_per_box: u16,
    pub store_node_indices: [u8; 7],
    pub base_prices_cents: OtDeluxeStoreBasePricesCents,
    pub price_mult_pct_by_node: [u16; 19],
    pub max_buy: OtDeluxeStoreMaxBuy,
}

/// Trail length and mile markers of each route variant.
#[derive(Debug, Clone, Copy)]
pub struct OtDeluxeTrailPolicy {
    pub total_miles_main: u16,
    pub mile_markers_main: [u16; 17],
    pub mile_markers_sublette: [u16; 17],
    pub mile_markers_dalles_shortcut: [u16; 17],
    pub mile_markers_sublette_and_dalles_shortcut: [u16; 17],
    pub mountain_nodes: [bool; 18],
}

/// Range of days a navigation mishap costs.
#[derive(Debug, Clone, Copy, PartialEq, Eq, Structural)]
pub struct OtDeluxeNavigationDelay {
    pub min_days: u8,
    pub max_days: u8,
}

impl Default for OtDeluxeNavigationDelay {
    fn default() -> (r: Self)
        ensures
            r.min_days == 1 && r.max_days == 3,
    {
        OtDeluxeNavigationDelay { min_days: 1, max_days: 3 }
    }
}

/// Delay ranges of the navigation mishaps.
#[derive(Debug, Clone, Copy, PartialEq, Eq, Structural)]
pub struct OtDeluxeNavigationDelays {
    pub lost_delay: OtDeluxeNavigationDelay,
    pub wrong_delay: OtDeluxeNavigationDelay,
    pub impassable_delay: OtDeluxeNavigationDelay,
    pub snowbound_delay: OtDeluxeNavigationDelay,
}

/// Optional replacements of the illness and injury weights.
#[derive(Debug, Clone, Copy, PartialEq, Eq, Structural)]
pub struct OtDeluxeAfflictionWeightOverride {
    pub illness: Option<u16>,
    pub injury: Option<u16>,
}

/// `b`'s value where it has one, else `a`'s.
pub open spec fn overlay(a: Option<u16>, b: Option<u16>) -> Option<u16> {
    if b is Some { b } else { a }
}

/// The override after merging `other` into `base`.
pub open spec fn merged(
    base: OtDeluxeAfflictionWeightOverride,
    other: OtDeluxeAfflictionWeightOverride,
) -> OtDeluxeAfflictionWeightOverride {
    OtDeluxeAfflictionWeightOverride {
        illness: overlay(base.illness, other.illness),
        injury: overlay(base.injury, other.injury),
    }
}

impl Default for OtDeluxeAfflictionWeightOverride {
    fn default() -> (r: Self)
        ensures
            r.illness is None && r.injury is None,
    {
        OtDeluxeAfflictionWeightOverride { illness: None, injury: None }
    }
}

impl OtDeluxeAfflictionWeightOverride {
    /// Takes every weight that `other` sets; keeps the rest.
    pub fn merge_from(&mut self, other: &Self)
        ensures
            *final(self) == merged(*old(self), *other),
    {
        if other.illness.is_some() {
            self.illness = other.illness;
        }
        if other.injury.is_some() {
            self.injury = other.injury;
        }
    }
}

/// Merging an override into itself changes nothing, and merging the same
/// override twice is the same as merging it once.
pub proof fn lemma_merge_idempotent(a: OtDeluxeAfflictionWeightOverride, b: OtDeluxeAfflictionWeightOverride)
    ensures
        merged(a, a) == a,
        merged(merged(a, b), b) == merged(a, b),
{
}

/// Merging `b` then `c` equals merging the merge of `b` and `c`.
pub proof fn lemma_merge_associative(
    a: OtDeluxeAfflictionWeightOverride,
    b: OtDeluxeAfflictionWeightOverride,
    c: OtDeluxeAfflictionWeightOverride,
)
    ensures
        merged(merged(a, b), c) == merged(a, merged(b, c)),
{
}

/// The empty override is neutral on both sides.
pub proof fn lemma_merge_identity(a: OtDeluxeAfflictionWeightOverride)
    ensures
        merged(a, OtDeluxeAfflictionWeightOverride { illness: None, injury: None }) == a,
        merged(OtDeluxeAfflictionWeightOverride { illness: None, injury: None }, a) == a,
{
}

} // verus!
