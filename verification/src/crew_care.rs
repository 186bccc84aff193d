//! Named fatigue and aid decisions. A traveller is never invented or revived.
use crate::encounters::positions_where;
use crate::party::{has_active, status_after, MemberStatus, PartyMember};
use crate::state::{same_world, CollapseCause, Ending, GameState};
use crate::strmap::StrMap;
use crate::text::str_eq;
use vstd::prelude::*;

verus! {

/// Strain per persona, the member awaiting a care decision and when the crew
/// was last checked.
pub struct CrewCare {
    pub reason: u8,
    pub strain: StrMap<u8>,
    pub pending: Option<String>,
    pub last_check_day: u32,
}

impl CrewCare {
    /// No strain and nothing pending.
    pub fn new() -> (c: CrewCare)
        ensures
            c.reason == 0,
            c.strain@ == Map::<Seq<char>, u8>::empty(),
            c.pending is None,
            c.last_check_day == 0,
    {
        CrewCare { reason: 0, strain: StrMap::new(), pending: None, last_check_day: 0 }
    }
}

/// Highest strain a member can carry.
pub const MAX_STRAIN: u8 = 3;

/// Strain recorded for a persona (zero when none).
pub open spec fn strain_of(strain: Map<Seq<char>, u8>, persona: Seq<char>) -> u8 {
    if strain.contains_key(persona) {
        strain[persona]
    } else {
        0
    }
}

/// Positions of the active members.
pub open spec fn active_positions(members: Seq<PartyMember>) -> Seq<usize> {
    positions_where(members.len(), |i: int| members[i].status == MemberStatus::Active)
}

/// First of the given positions whose member carries strain.
pub open spec fn first_struggling(
    members: Seq<PartyMember>,
    strain: Map<Seq<char>, u8>,
    positions: Seq<usize>,
) -> Option<usize>
    decreases positions.len(),
{
    if positions.len() == 0 {
        None
    } else if strain_of(strain, members[positions[0] as int].persona@) > 0 {
        Some(positions[0])
    } else {
        first_struggling(members, strain, positions.drop_first())
    }
}

/// The rotation slot for a check: day in fives plus the seed, modulo the active count.
pub open spec fn rotation_offset(day: u32, seed: u64, active: nat) -> int {
    ((day / 5) as int + seed as int) % 0x1_0000_0000_0000_0000 % (active as int)
}

/// A check is due on this day.
pub open spec fn check_due(gs: GameState, previous_day: u32) -> bool {
    &&& gs.day > previous_day
    &&& gs.day >= gs.continuity.crew_care.last_check_day.saturating_add(5)
    &&& gs.continuity.crew_care.pending is None
    &&& gs.ending is None
    &&& !gs.boss.readiness.ready
    &&& active_positions(gs.party.members@).len() > 0
}

/// The member chosen by a due check: the first struggling active member, else
/// the member at the rotation slot.
pub open spec fn checked_member(gs: GameState) -> usize {
    let active = active_positions(gs.party.members@);
    match first_struggling(gs.party.members@, gs.continuity.crew_care.strain@, active) {
        Some(i) => i,
        None => active[rotation_offset(gs.day, gs.seed, active.len())],
    }
}

/// Strain after one more check, capped.
pub open spec fn raised_strain(s: u8) -> u8 {
    let t = s.saturating_add(1);
    if t <= MAX_STRAIN { t } else { MAX_STRAIN }
}

/// The state after a check: unchanged unless one is due; then the chosen
/// member's strain rises, they await a decision, and the check day is recorded.
pub open spec fn checked(old: GameState, new: GameState, previous_day: u32) -> bool {
    if !check_due(old, previous_day) {
        new == old
    } else {
        let persona = old.party.members@[checked_member(old) as int].persona@;
        let s = raised_strain(strain_of(old.continuity.crew_care.strain@, persona));
        let c = new.continuity.crew_care;
        &&& same_world(old, new)
        &&& new.stats == old.stats && new.budget == old.budget && new.budget_cents == old.budget_cents
        &&& new.party == old.party && new.ending == old.ending
        &&& same_account_except_care(old, new)
        &&& c.strain@ == old.continuity.crew_care.strain@.insert(persona, s)
        &&& c.pending matches Some(p) && p@ == persona
        &&& c.reason == if s == 1 {
            ((old.seed as int + (old.day / 5) as int) % 0x1_0000_0000_0000_0000 % 8) as u8
        } else {
            old.continuity.crew_care.reason
        }
        &&& c.last_check_day == old.day
    }
}

/// The saved account agrees apart from crew care.
pub open spec fn same_account_except_care(a: GameState, b: GameState) -> bool {
    let c = a.continuity;
    let d = b.continuity;
    &&& c.visual_content == d.visual_content
    &&& c.interactive_repairs == d.interactive_repairs
    &&& c.activities == d.activities
    &&& c.abandoned == d.abandoned
    &&& c.clock_minutes == d.clock_minutes
    &&& c.driving_minutes_total == d.driving_minutes_total
    &&& c.pace_fatigue_remainder == d.pace_fatigue_remainder
    &&& c.last_encounter_driving_minutes == d.last_encounter_driving_minutes
    &&& c.journal == d.journal
    &&& c.turn_journal_start == d.turn_journal_start
    &&& c.ally_notice == d.ally_notice
    &&& c.scene_subject == d.scene_subject
    &&& c.route_services == d.route_services
}

fn active_member_positions(members: &Vec<PartyMember>) -> (r: Vec<usize>)
    ensures
        r@ == active_positions(members@),
        forall|k: int| 0 <= k < r@.len() ==> #[trigger] r@[k] < members@.len(),
{
    let ghost p = |i: int| members@[i].status == MemberStatus::Active;
    let mut out: Vec<usize> = Vec::new();
    let mut i: usize = 0;
    while i < members.len()
        invariant
            i <= members@.len(),
            p == (|i: int| members@[i].status == MemberStatus::Active),
            out@ == positions_where(i as nat, p),
        decreases members@.len() - i,
    {
        if members[i].status == MemberStatus::Active {
            out.push(i);
        }
        i = i + 1;
    }
    proof {
        crate::encounters::lemma_positions_where_bounded(members@.len(), p);
    }
    out
}

fn find_struggling(members: &Vec<PartyMember>, strain: &StrMap<u8>, positions: &Vec<usize>) -> (r: Option<usize>)
    requires
        forall|k: int| 0 <= k < positions@.len() ==> #[trigger] positions@[k] < members@.len(),
    ensures
        r == first_struggling(members@, strain@, positions@),
        r matches Some(i) ==> i < members@.len(),
{
    let mut i: usize = 0;
    assert(positions@.skip(0) =~= positions@);
    while i < positions.len()
        invariant
            i <= positions@.len(),
            forall|k: int| 0 <= k < positions@.len() ==> #[trigger] positions@[k] < members@.len(),
            first_struggling(members@, strain@, positions@) == first_struggling(
                members@,
                strain@,
                positions@.skip(i as int),
            ),
        decreases positions@.len() - i,
    {
        assert(positions@.skip(i as int)[0] == positions@[i as int]);
        assert(positions@.skip(i as int).drop_first() =~= positions@.skip(i + 1));
        let idx = positions[i];
        let s = match strain.get(members[idx].persona.as_str()) {
            Some(v) => v,
            None => 0,
        };
        if s > 0 {
            return Some(idx);
        }
        i = i + 1;
    }
    None
}

/// Members sheltered or lost leave the active party.
pub open spec fn care_outcome_members(old: Seq<PartyMember>, new: Seq<PartyMember>, persona: Seq<char>, status: MemberStatus) -> bool {
    &&& new.len() == old.len()
    &&& forall|i: int|
        0 <= i < old.len() ==> {
            &&& (#[trigger] new[i]).persona@ == old[i].persona@
            &&& new[i].status == status_after(old[i], persona, status)
        }
}

/// The persona is the player's own.
pub open spec fn is_player(gs: GameState, persona: Seq<char>) -> bool {
    gs.persona_id matches Some(p) && p@ == persona
}

/// Result key of a care decision, or `None` when none can be made.
pub open spec fn care_key(gs: GameState, choice: usize) -> Option<Seq<char>> {
    match gs.continuity.crew_care.pending {
        None => None,
        Some(p) => {
            let persona = p@;
            if !has_active(gs.party.members@, persona) {
                None
            } else if choice == 0 && gs.stats.supplies >= 2 {
                Some("journey.care_helped"@)
            } else if choice == 1 && !is_player(gs, persona) {
                Some("journey.care_sheltered"@)
            } else if choice == 2 {
                if care_strain(gs, persona) >= 3 {
                    Some("journey.care_lost"@)
                } else {
                    Some("journey.care_deferred"@)
                }
            } else {
                None
            }
        },
    }
}

/// Strain read by a care decision (one when none is recorded).
pub open spec fn care_strain(gs: GameState, persona: Seq<char>) -> u8 {
    if gs.continuity.crew_care.strain@.contains_key(persona) {
        gs.continuity.crew_care.strain@[persona]
    } else {
        1
    }
}

/// The decision that applies stays within the stats' types: care raises
/// morale, shelter lowers it, and pressing on lowers sanity and, at critical
/// strain, morale by three.
pub open spec fn care_fits(gs: GameState, choice: usize) -> bool {
    match care_key(gs, choice) {
        None => true,
        Some(_) => if choice == 0 {
            gs.stats.morale < i32::MAX
        } else if choice == 1 {
            gs.stats.morale > i32::MIN
        } else {
            &&& gs.stats.sanity > i32::MIN
            &&& care_strain(gs, gs.continuity.crew_care.pending->0@) >= 3 ==> gs.stats.morale >= i32::MIN + 3
        },
    }
}

/// The state after a care decision: unchanged when none applies; otherwise
/// the decision's effect on stats, strain, party and ending, and nothing pending.
pub open spec fn cared(old: GameState, new: GameState, choice: usize) -> bool {
    if care_key(old, choice) is None {
        new == old
    } else {
        let persona = old.continuity.crew_care.pending->0@;
        let s = old.stats;
        let t = new.stats;
        &&& same_world(old, new)
        &&& same_account_except_care(old, new)
        &&& new.budget == old.budget && new.budget_cents == old.budget_cents
        &&& new.continuity.crew_care.pending is None
        &&& new.continuity.crew_care.reason == old.continuity.crew_care.reason
        &&& new.continuity.crew_care.last_check_day == old.continuity.crew_care.last_check_day
        &&& t.hp == s.hp && t.credibility == s.credibility && t.allies == s.allies && t.pants == s.pants
        &&& if choice == 0 {
            &&& t.supplies == s.supplies - 2
            &&& t.morale == if s.morale + 1 <= 10 { s.morale + 1 } else { 10 }
            &&& t.sanity == s.sanity
            &&& new.continuity.crew_care.strain@ == old.continuity.crew_care.strain@.remove(persona)
            &&& new.party == old.party && new.ending == old.ending
        } else if choice == 1 {
            &&& t.supplies == s.supplies && t.sanity == s.sanity
            &&& t.morale == if s.morale - 1 >= 0 { s.morale - 1 } else { 0 }
            &&& new.continuity.crew_care.strain@ == old.continuity.crew_care.strain@.remove(persona)
            &&& care_outcome_members(old.party.members@, new.party.members@, persona, MemberStatus::Departed)
            &&& new.ending == old.ending
        } else {
            &&& t.supplies == s.supplies
            &&& t.sanity == if s.sanity - 1 >= 0 { s.sanity - 1 } else { 0 }
            &&& new.continuity.crew_care.strain@ == old.continuity.crew_care.strain@
            &&& if care_strain(old, persona) >= 3 {
                &&& t.morale == if s.morale - 3 >= 0 { s.morale - 3 } else { 0 }
                &&& care_outcome_members(old.party.members@, new.party.members@, persona, MemberStatus::Dead)
                &&& new.ending == if is_player(old, persona) {
                    Some(Ending::Collapse { cause: CollapseCause::Disease })
                } else {
                    old.ending
                }
            } else {
                &&& t.morale == s.morale
                &&& new.party == old.party && new.ending == old.ending
            }
        }
    }
}

fn is_player_persona(persona_id: &Option<String>, persona: &str) -> (r: bool)
    ensures
        r == (persona_id matches Some(p) && p@ == persona@),
{
    match persona_id {
        Some(p) => str_eq(p.as_str(), persona),
        None => false,
    }
}

impl GameState {
    /// Periodic crew check: on a due day the first struggling active member,
    /// else one picked by a stable rotation, gains strain and awaits care.
    pub fn check_crew(&mut self, previous_day: u32)
        ensures
            checked(*old(self), *final(self), previous_day),
    {
        if self.day <= previous_day
            || self.day < self.continuity.crew_care.last_check_day.saturating_add(5)
            || self.continuity.crew_care.pending.is_some() || self.ending.is_some()
            || self.boss.readiness.ready {
            return;
        }
        let active = active_member_positions(&self.party.members);
        if active.len() == 0 {
            return;
        }
        let struggling = find_struggling(&self.party.members, &self.continuity.crew_care.strain, &active);
        let count = active.len() as u64;
        let slot = ((self.day / 5) as u64).wrapping_add(self.seed) % count;
        let member = match struggling {
            Some(i) => i,
            None => active[slot as usize],
        };
        assert(member == checked_member(*old(self)));
        let persona = self.party.members[member].persona.clone();
        let current = match self.continuity.crew_care.strain.get(persona.as_str()) {
            Some(v) => v,
            None => 0,
        };
        let bumped = current.saturating_add(1);
        let strain: u8 = if bumped <= MAX_STRAIN { bumped } else { MAX_STRAIN };
        self.continuity.crew_care.strain.insert(persona.clone(), strain);
        self.continuity.crew_care.pending = Some(persona);
        if strain == 1 {
            self.continuity.crew_care.reason = (self.seed.wrapping_add((self.day / 5) as u64) % 8) as u8;
        }
        self.continuity.crew_care.last_check_day = self.day;
    }

    /// Resolves the pending care decision: care (two supplies), shelter (the
    /// member leaves), or press on (strain carries; at critical strain the
    /// member is lost). Returns the result key, or `None` when no decision applies.
    #[verifier::rlimit(60)]
    pub fn resolve_crew_care(&mut self, choice: usize) -> (r: Option<&'static str>)
        requires
            care_fits(*old(self), choice),
        ensures
            match r {
                Some(k) => care_key(*old(self), choice) == Some(k@),
                None => care_key(*old(self), choice) is None,
            },
            cared(*old(self), *final(self), choice),
    {
        let persona = match &self.continuity.crew_care.pending {
            Some(p) => p.clone(),
            None => return None,
        };
        if !self.party.is_active(persona.as_str()) {
            return None;
        }
        let strain: u8 = match self.continuity.crew_care.strain.get(persona.as_str()) {
            Some(v) => v,
            None => 1,
        };
        let is_player = is_player_persona(&self.persona_id, persona.as_str());
        let key: &'static str = if choice == 0 && self.stats.supplies >= 2 {
            self.stats.supplies = self.stats.supplies - 2;
            let m = self.stats.morale + 1;
            self.stats.morale = if m <= 10 { m } else { 10 };
            self.continuity.crew_care.strain.remove(persona.as_str());
            "journey.care_helped"
        } else if choice == 1 && !is_player {
            self.party.set_status(persona.as_str(), MemberStatus::Departed);
            self.continuity.crew_care.strain.remove(persona.as_str());
            let m = self.stats.morale - 1;
            self.stats.morale = if m >= 0 { m } else { 0 };
            "journey.care_sheltered"
        } else if choice == 2 {
            let s = self.stats.sanity - 1;
            self.stats.sanity = if s >= 0 { s } else { 0 };
            if strain >= 3 {
                self.party.set_status(persona.as_str(), MemberStatus::Dead);
                if is_player {
                    self.ending = Some(Ending::Collapse { cause: CollapseCause::Disease });
                }
                let m = self.stats.morale - 3;
                self.stats.morale = if m >= 0 { m } else { 0 };
                "journey.care_lost"
            } else {
                "journey.care_deferred"
            }
        } else {
            return None;
        };
        self.continuity.crew_care.pending = None;
        Some(key)
    }

    /// A stationary recovery day clears every member's strain.
    pub fn recover_crew(&mut self)
        ensures
            final(self).continuity.crew_care.strain@ == Map::<Seq<char>, u8>::empty(),
            final(self).continuity.crew_care.pending is None,
            final(self).continuity.crew_care.last_check_day == old(self).day,
            final(self).continuity.crew_care.reason == old(self).continuity.crew_care.reason,
            same_world(*old(self), *final(self)),
            same_account_except_care(*old(self), *final(self)),
            final(self).stats == old(self).stats,
            final(self).party == old(self).party,
            final(self).ending == old(self).ending,
            final(self).budget == old(self).budget,
            final(self).budget_cents == old(self).budget_cents,
    {
        self.continuity.crew_care.strain.clear();
        self.continuity.crew_care.pending = None;
        self.continuity.crew_care.last_check_day = self.day;
    }
}

/// Every recorded strain is at most the cap.
pub open spec fn strain_bounded(strain: Map<Seq<char>, u8>) -> bool {
    forall|k: Seq<char>| strain.contains_key(k) ==> #[trigger] strain[k] <= MAX_STRAIN
}

/// Crew checks keep every strain at or below the cap.
pub proof fn lemma_check_keeps_strain_bounded(old: GameState, new: GameState, previous_day: u32)
    requires
        checked(old, new, previous_day),
        strain_bounded(old.continuity.crew_care.strain@),
    ensures
        strain_bounded(new.continuity.crew_care.strain@),
{
}

/// Care decisions keep every strain at or below the cap.
pub proof fn lemma_care_keeps_strain_bounded(old: GameState, new: GameState, choice: usize)
    requires
        cared(old, new, choice),
        strain_bounded(old.continuity.crew_care.strain@),
    ensures
        strain_bounded(new.continuity.crew_care.strain@),
{
}

/// A care decision never revives or invents a traveller: every member active
/// afterwards was active before, and the party keeps its members.
pub proof fn lemma_care_never_revives(old: GameState, new: GameState, choice: usize)
    requires
        cared(old, new, choice),
    ensures
        new.party.members@.len() == old.party.members@.len(),
        forall|i: int|
            0 <= i < new.party.members@.len() && (#[trigger] new.party.members@[i]).status == MemberStatus::Active
                ==> old.party.members@[i].status == MemberStatus::Active,
{
}

/// A due check picks an active member of the party.
pub proof fn lemma_checked_member_is_active(gs: GameState, previous_day: u32)
    requires
        check_due(gs, previous_day),
        gs.party.members@.len() <= usize::MAX,
    ensures
        checked_member(gs) < gs.party.members@.len(),
        gs.party.members@[checked_member(gs) as int].status == MemberStatus::Active,
{
    let members = gs.party.members@;
    let p = |i: int| members[i].status == MemberStatus::Active;
    crate::encounters::lemma_positions_where_bounded(members.len(), p);
    let active = active_positions(members);
    assert(active == crate::encounters::positions_where(members.len(), p));
    lemma_first_struggling_in(members, gs.continuity.crew_care.strain@, active);
    match first_struggling(members, gs.continuity.crew_care.strain@, active) {
        Some(i) => {
            let k = choose|k: int| 0 <= k < active.len() && active[k] == i;
            assert(active[k] < members.len() && p(active[k] as int));
        },
        None => {
            let k = rotation_offset(gs.day, gs.seed, active.len());
            assert(0 <= k < active.len());
            assert(active[k] < members.len() && p(active[k] as int));
        },
    }
}

proof fn lemma_first_struggling_in(members: Seq<PartyMember>, strain: Map<Seq<char>, u8>, positions: Seq<usize>)
    ensures
        first_struggling(members, strain, positions) matches Some(i) ==> exists|k: int|
            0 <= k < positions.len() && positions[k] == i,
    decreases positions.len(),
{
    if positions.len() > 0 && strain_of(strain, members[positions[0] as int].persona@) == 0 {
        lemma_first_struggling_in(members, strain, positions.drop_first());
        if let Some(i) = first_struggling(members, strain, positions.drop_first()) {
            let k = choose|k: int| 0 <= k < positions.drop_first().len() && positions.drop_first()[k] == i;
            assert(positions[k + 1] == i);
        }
    }
}

} // verus!
