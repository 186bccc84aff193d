//! Crossings and checkpoints: configuration records, outcomes and permits.
use crate::journey::{holds, DetourPolicy, PermitPolicy};
use crate::state::{GameState, Inventory, Stats};
use crate::text::{contains_spec, contains_str, str_eq};
use vstd::prelude::*;

verus! {

#[derive(Debug, Clone, Copy, PartialEq, Eq, Structural)]
pub enum CrossingKind {
    Checkpoint,
    BridgeOut,
}

/// Cost of taking a detour.
#[derive(Debug, Clone, Copy, PartialEq, Eq, Structural)]
pub struct DetourCfg {
    pub days: i32,
    pub supplies: i32,
    pub pants: i32,
}

/// Credibility gained by showing a permit.
#[derive(Debug, Clone, Copy, PartialEq, Eq, Structural)]
pub struct PermitCfg {
    pub cred_gain: i32,
}

/// Cost of a failed bribe.
#[derive(Debug, Clone, Copy, PartialEq, Eq, Structural)]
pub struct FailCfg {
    pub days: i32,
    pub pants: i32,
}

/// Partial override of a detour's cost.
#[derive(Debug, Clone, Copy, PartialEq, Eq, Structural)]
pub struct PartialDetour {
    pub days: Option<i32>,
    pub pants: Option<i32>,
}

/// Weather adjustment of detours.
#[derive(Debug, Clone, Copy, PartialEq, Eq, Structural)]
pub struct WeatherDetourMod {
    pub detour: PartialDetour,
}

/// Currency settings.
#[derive(Debug, Clone)]
pub struct MoneyCfg {
    pub currency: String,
    pub allow_negative_budget: bool,
}

/// Result of resolving a crossing.
#[derive(Debug, Clone, Copy, PartialEq, Eq, Structural)]
pub enum CrossingResult {
    Pass,
    Detour(u8),
    TerminalFail,
}

/// Result of a crossing with what was tried on the way.
#[derive(Debug, Clone, Copy, PartialEq, Eq, Structural)]
pub struct CrossingOutcome {
    pub result: CrossingResult,
    pub used_permit: bool,
    pub bribe_attempted: bool,
    pub bribe_succeeded: bool,
}

impl CrossingOutcome {
    /// An outcome with nothing tried.
    pub fn new(result: CrossingResult) -> (r: CrossingOutcome)
        ensures
            r.result == result && !r.used_permit && !r.bribe_attempted && !r.bribe_succeeded,
    {
        CrossingOutcome { result, used_permit: false, bribe_attempted: false, bribe_succeeded: false }
    }
}

/// Tags that count as a permit.
pub open spec fn permit_tag(tag: Seq<char>) -> bool {
    tag == "permit"@ || tag == "press_pass"@
}

/// Some carried item has this tag.
pub open spec fn has_tag_spec(inv: Inventory, tag: Seq<char>) -> bool {
    exists|i: int| 0 <= i < inv.tags@.len() && (#[trigger] inv.tags@[i])@ == tag
}

impl Inventory {
    /// Whether some carried item has this tag.
    pub fn has_tag(&self, tag: &str) -> (r: bool)
        ensures
            r == has_tag_spec(*self, tag@),
    {
        let mut i: usize = 0;
        while i < self.tags.len()
            invariant
                i <= self.tags@.len(),
                forall|k: int| 0 <= k < i ==> (#[trigger] self.tags@[k])@ != tag@,
            decreases self.tags@.len() - i,
        {
            if str_eq(self.tags[i].as_str(), tag) {
                return true;
            }
            i = i + 1;
        }
        false
    }
}

/// Some receipt mentions the tag.
pub open spec fn receipt_mentions(receipts: Seq<String>, tag: Seq<char>) -> bool {
    exists|i: int| 0 <= i < receipts.len() && contains_spec((#[trigger] receipts[i])@, tag)
}

/// A permit is a carried permit or press pass, or a receipt that mentions one.
pub open spec fn can_use_permit_spec(gs: GameState) -> bool {
    ||| has_tag_spec(gs.inventory, "permit"@)
    ||| has_tag_spec(gs.inventory, "press_pass"@)
    ||| receipt_mentions(gs.receipts@, "permit"@)
    ||| receipt_mentions(gs.receipts@, "press_pass"@)
}

fn any_receipt_mentions(receipts: &Vec<String>, tag: &str) -> (r: bool)
    ensures
        r == receipt_mentions(receipts@, tag@),
{
    let mut i: usize = 0;
    while i < receipts.len()
        invariant
            i <= receipts@.len(),
            forall|k: int| 0 <= k < i ==> !contains_spec((#[trigger] receipts@[k])@, tag@),
        decreases receipts@.len() - i,
    {
        if contains_str(receipts[i].as_str(), tag) {
            return true;
        }
        i = i + 1;
    }
    false
}

/// Whether the party can show a permit at a crossing.
pub fn can_use_permit(gs: &GameState, kind: &CrossingKind) -> (r: bool)
    ensures
        r == can_use_permit_spec(*gs),
{
    if gs.inventory.has_tag("permit") || gs.inventory.has_tag("press_pass") {
        return true;
    }
    any_receipt_mentions(&gs.receipts, "permit") || any_receipt_mentions(&gs.receipts, "press_pass")
}

/// Detour length drawn from a sample: the minimum plus the sample modulo the
/// span of the range (the minimum when the range is empty).
pub open spec fn detour_days_spec(d: DetourPolicy, sample: u32) -> u8 {
    if d.min >= d.max {
        d.min
    } else {
        let span: int = (d.max - d.min) + 1;
        d.min.saturating_add((sample as int % span) as u8)
    }
}

/// Detour days for a sample of the crossing stream.
pub fn detour_days_for_sample(detour: &DetourPolicy, sample: u32) -> (r: u8)
    ensures
        r == detour_days_spec(*detour, sample),
        detour.min < detour.max ==> detour.min <= r <= detour.max,
{
    let min = detour.min;
    let max = detour.max;
    if min >= max {
        return min;
    }
    let span = (max - min) as u32 + 1;
    let offset = sample % span;
    min.saturating_add(offset as u8)
}

/// The crossing kind's token in a permit list.
pub open spec fn kind_token(kind: CrossingKind) -> Seq<char> {
    match kind {
        CrossingKind::Checkpoint => "checkpoint"@,
        CrossingKind::BridgeOut => "bridge_out"@,
    }
}

/// A permit applies to the crossing: listed for its kind, or, with no list,
/// whenever permits waive terminal outcomes.
pub open spec fn permit_allows_spec(permit: PermitPolicy, kind: CrossingKind) -> bool {
    if permit.eligible@.len() == 0 {
        permit.disable_terminal
    } else {
        holds(permit.eligible@, kind_token(kind))
    }
}

pub fn permit_allows(permit: &PermitPolicy, kind: CrossingKind) -> (r: bool)
    ensures
        r == permit_allows_spec(*permit, kind),
{
    if permit.eligible.len() == 0 {
        return permit.disable_terminal;
    }
    let token = match kind {
        CrossingKind::Checkpoint => "checkpoint",
        CrossingKind::BridgeOut => "bridge_out",
    };
    let mut i: usize = 0;
    while i < permit.eligible.len()
        invariant
            i <= permit.eligible@.len(),
            token@ == kind_token(kind),
            forall|k: int| 0 <= k < i ==> (#[trigger] permit.eligible@[k])@ != token@,
        decreases permit.eligible@.len() - i,
    {
        if str_eq(permit.eligible[i].as_str(), token) {
            assert(permit.eligible@[i as int]@ == token@);
            return true;
        }
        i = i + 1;
    }
    false
}

/// Takes a detour: its supply cost (or gain) and pants change apply; its
/// days are counted where time advances.
pub fn apply_detour(gs: &mut GameState, detour: &DetourCfg) -> (r: String)
    requires
        i32::MIN <= old(gs).stats.supplies + detour.supplies <= i32::MAX,
        i32::MIN <= old(gs).stats.pants + detour.pants <= i32::MAX,
    ensures
        r@ == "crossing.result.detour.success"@,
        final(gs).stats == (Stats {
            supplies: (old(gs).stats.supplies + detour.supplies) as i32,
            pants: (old(gs).stats.pants + detour.pants) as i32,
            ..old(gs).stats
        }),
        *final(gs) == (GameState { stats: final(gs).stats, ..*old(gs) }),
{
    gs.stats.supplies = gs.stats.supplies + detour.supplies;
    gs.stats.pants = gs.stats.pants + detour.pants;
    String::from_str("crossing.result.detour.success")
}

/// Shows a permit: credibility rises by the permit's gain.
pub fn apply_permit(gs: &mut GameState, permit: &PermitCfg) -> (r: String)
    requires
        i32::MIN <= old(gs).stats.credibility + permit.cred_gain <= i32::MAX,
    ensures
        r@ == "crossing.result.permit.success"@,
        final(gs).stats == (Stats { credibility: (old(gs).stats.credibility + permit.cred_gain) as i32, ..old(gs).stats }),
        *final(gs) == (GameState { stats: final(gs).stats, ..*old(gs) }),
{
    gs.stats.credibility = gs.stats.credibility + permit.cred_gain;
    String::from_str("crossing.result.permit.success")
}

/// Whole dollars of a non-negative cent amount, zero when they exceed `i32`.
pub open spec fn whole_dollars(cents: int) -> i32 {
    if cents / 100 <= i32::MAX { (cents / 100) as i32 } else { 0 }
}

/// Pays a bribe of `bribe_cost` cents when the budget covers it: the budget
/// drops by the cost, its whole-dollar figure follows, and the cost is added
/// to the bribes spent. A budget that falls short changes nothing.
pub fn apply_bribe(gs: &mut GameState, bribe_cost: i64) -> (r: String)
    requires
        old(gs).budget_cents >= bribe_cost ==> {
            &&& old(gs).budget_cents - bribe_cost <= i64::MAX
            &&& old(gs).bribes_spent_cents + bribe_cost <= i64::MAX
            &&& i64::MIN <= old(gs).bribes_spent_cents + bribe_cost
        },
    ensures
        old(gs).budget_cents >= bribe_cost ==> {
            &&& r@ == "crossing.result.bribe.success"@
            &&& final(gs).budget_cents == old(gs).budget_cents - bribe_cost
            &&& final(gs).budget == whole_dollars(old(gs).budget_cents - bribe_cost)
            &&& final(gs).bribes_spent_cents == old(gs).bribes_spent_cents + bribe_cost
            &&& *final(gs) == (GameState {
                budget_cents: final(gs).budget_cents,
                budget: final(gs).budget,
                bribes_spent_cents: final(gs).bribes_spent_cents,
                ..*old(gs)
            })
        },
        old(gs).budget_cents < bribe_cost ==> r@ == "crossing.result.bribe.fail"@ && *final(gs) == *old(gs),
{
    if gs.budget_cents >= bribe_cost {
        gs.budget_cents = gs.budget_cents - bribe_cost;
        let dollars = gs.budget_cents / 100;
        gs.budget = if dollars <= i32::MAX as i64 { dollars as i32 } else { 0 };
        gs.bribes_spent_cents = gs.bribes_spent_cents + bribe_cost;
        String::from_str("crossing.result.bribe.success")
    } else {
        String::from_str("crossing.result.bribe.fail")
    }
}

/// A carried permit or press pass always lets the party use a permit.
pub proof fn lemma_carried_pass_is_a_permit(gs: GameState, i: int)
    requires
        0 <= i < gs.inventory.tags@.len(),
        gs.inventory.tags@[i]@ == "permit"@ || gs.inventory.tags@[i]@ == "press_pass"@,
    ensures
        can_use_permit_spec(gs),
{
    assert(gs.inventory.tags@[i]@ == "permit"@ ==> has_tag_spec(gs.inventory, "permit"@));
    assert(gs.inventory.tags@[i]@ == "press_pass"@ ==> has_tag_spec(gs.inventory, "press_pass"@));
}

} // verus!
