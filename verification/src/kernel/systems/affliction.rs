//! Afflictions: which kind strikes and for how long.
use crate::disease::AfflictionDurations;
use crate::encounters::{entry_views, WeightedEntry};
use crate::mechanics::otdeluxe90s::OtDeluxeAfflictionWeightOverride;
use crate::otdeluxe_state::OtDeluxeAfflictionKind;
use crate::rng::gen_range_u32;
use rand::rngs::SmallRng;
use vstd::prelude::*;

verus! {

/// Days an affliction lasts: the policy's duration for its kind, at least one.
pub fn otdeluxe_affliction_duration(kind: OtDeluxeAfflictionKind, durations: &AfflictionDurations) -> (r: u8)
    ensures
        r == ({
            let d = match kind {
                OtDeluxeAfflictionKind::Illness => durations.illness_duration_days,
                OtDeluxeAfflictionKind::Injury => durations.injury_duration_days,
            };
            if d == 0 { 1u8 } else { d }
        }),
{
    let duration = match kind {
        OtDeluxeAfflictionKind::Illness => durations.illness_duration_days,
        OtDeluxeAfflictionKind::Injury => durations.injury_duration_days,
    };
    if duration == 0 { 1 } else { duration }
}

/// The illness and injury weights: each override where set, else the policy's.
pub open spec fn affliction_weights(weight_illness: u16, weight_injury: u16, o: OtDeluxeAfflictionWeightOverride) -> (u16, u16) {
    (
        match o.illness { Some(w) => w, None => weight_illness },
        match o.injury { Some(w) => w, None => weight_injury },
    )
}

/// How an affliction kind was picked.
pub struct AfflictionTrace {
    pub pool_id: String,
    pub roll: u32,
    pub candidates: Vec<WeightedEntry>,
    pub chosen_id: String,
}

/// The kind a roll below the total weight picks: illness below its weight, else injury.
pub open spec fn kind_for_roll(illness: u16, roll: u32) -> OtDeluxeAfflictionKind {
    if roll < illness as u32 {
        OtDeluxeAfflictionKind::Illness
    } else {
        OtDeluxeAfflictionKind::Injury
    }
}

pub open spec fn kind_id(kind: OtDeluxeAfflictionKind) -> Seq<char> {
    match kind {
        OtDeluxeAfflictionKind::Illness => "illness"@,
        OtDeluxeAfflictionKind::Injury => "injury"@,
    }
}

/// The kind and trace for `roll`: the kind of the roll's bucket, and a trace
/// naming the kind pool, the roll, both weighted candidates and the chosen id.
pub open spec fn kind_roll_result(illness: u16, injury: u16, roll: u32, kind: OtDeluxeAfflictionKind, t: AfflictionTrace) -> bool {
    &&& kind == kind_for_roll(illness, roll)
    &&& t.pool_id@ == "otdeluxe.affliction_kind"@
    &&& t.roll == roll
    &&& entry_views(t.candidates@) == seq![("illness"@, illness as u32, illness as u32), ("injury"@, injury as u32, injury as u32)]
    &&& t.chosen_id@ == kind_id(kind)
}

/// Picks the kind for a given roll below the total weight, with its trace.
pub fn affliction_kind_with_roll(illness: u16, injury: u16, roll: u32) -> (r: (OtDeluxeAfflictionKind, AfflictionTrace))
    requires
        roll < illness as u32 + injury as u32,
    ensures
        kind_roll_result(illness, injury, roll, r.0, r.1),
{
    let kind = if roll < illness as u32 { OtDeluxeAfflictionKind::Illness } else { OtDeluxeAfflictionKind::Injury };
    let mut candidates: Vec<WeightedEntry> = Vec::new();
    candidates.push(WeightedEntry { id: String::from_str("illness"), base_weight: illness as u32, final_weight: illness as u32 });
    candidates.push(WeightedEntry { id: String::from_str("injury"), base_weight: injury as u32, final_weight: injury as u32 });
    assert(entry_views(candidates@) =~= seq![("illness"@, illness as u32, illness as u32), ("injury"@, injury as u32, injury as u32)]);
    let chosen_id = match kind {
        OtDeluxeAfflictionKind::Illness => String::from_str("illness"),
        OtDeluxeAfflictionKind::Injury => String::from_str("injury"),
    };
    let trace = AfflictionTrace { pool_id: String::from_str("otdeluxe.affliction_kind"), roll, candidates, chosen_id };
    (kind, trace)
}

/// Draws the kind of an affliction: illness with probability proportional to
/// its weight; illness without a trace when both weights are zero.
pub fn roll_otdeluxe_affliction_kind_with_trace(
    weight_illness: u16,
    weight_injury: u16,
    overrides: &OtDeluxeAfflictionWeightOverride,
    rng: &mut SmallRng,
) -> (r: (OtDeluxeAfflictionKind, Option<AfflictionTrace>))
    ensures
        ({
            let (illness, injury) = affliction_weights(weight_illness, weight_injury, *overrides);
            &&& illness as u32 + injury as u32 == 0 ==> r.0 == OtDeluxeAfflictionKind::Illness && r.1 is None
                && *final(rng) == *old(rng)
            &&& illness as u32 + injury as u32 > 0 ==> (r.1 matches Some(t) && t.roll < illness as u32 + injury as u32
                && kind_roll_result(illness, injury, t.roll, r.0, t))
        }),
{
    let illness = match overrides.illness { Some(w) => w, None => weight_illness };
    let injury = match overrides.injury { Some(w) => w, None => weight_injury };
    let total = illness as u32 + injury as u32;
    if total == 0 {
        return (OtDeluxeAfflictionKind::Illness, None);
    }
    let roll = gen_range_u32(rng, 0, total);
    let (kind, trace) = affliction_kind_with_roll(illness, injury, roll);
    (kind, Some(trace))
}

} // verus!
