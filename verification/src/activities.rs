//! Bounded supply gathering and town work.
use crate::state::{same_world, GameState};
use crate::journal::{clock_after, clock_after_exec};
use vstd::prelude::*;

verus! {

/// When the party last gathered and where it last worked.
#[derive(Debug, Clone, Copy, PartialEq, Eq, Structural)]
pub struct TrailActivities {
    pub foraged_on: Option<u32>,
    pub worked_at: Option<u32>,
    pub local_word: Option<u8>,
}

impl TrailActivities {
    /// Nothing gathered or worked yet.
    pub fn new() -> (a: TrailActivities)
        ensures
            a.foraged_on is None,
            a.worked_at is None,
            a.local_word is None,
    {
        TrailActivities { foraged_on: None, worked_at: None, local_word: None }
    }
}

/// Days between two roadside gatherings.
pub const FORAGE_COOLDOWN_DAYS: u32 = 3;

/// Roadside and town activities.
#[derive(Debug, Clone, Copy, PartialEq, Eq, Structural)]
pub enum Activity {
    Forage,
    Glean,
    WorkSupplies,
    WorkCash,
}

impl Activity {
    pub open spec fn key_spec(self) -> Seq<char> {
        match self {
            Activity::Forage => "trail.forage"@,
            Activity::Glean => "trail.glean"@,
            Activity::WorkSupplies => "trail.work_supplies"@,
            Activity::WorkCash => "trail.work_cash"@,
        }
    }

    /// Translation key of the activity.
    pub fn key(self) -> (r: &'static str)
        ensures
            r@ == self.key_spec(),
    {
        match self {
            Activity::Forage => "trail.forage",
            Activity::Glean => "trail.glean",
            Activity::WorkSupplies => "trail.work_supplies",
            Activity::WorkCash => "trail.work_cash",
        }
    }

    pub open spec fn minutes_spec(self) -> u16 {
        match self {
            Activity::Forage | Activity::Glean => 120,
            Activity::WorkSupplies | Activity::WorkCash => 180,
        }
    }

    /// Minutes the activity takes.
    pub fn minutes(self) -> (r: u16)
        ensures
            r == self.minutes_spec(),
    {
        match self {
            Activity::Forage | Activity::Glean => 120,
            Activity::WorkSupplies | Activity::WorkCash => 180,
        }
    }

    pub open spec fn is_roadside(self) -> bool {
        self == Activity::Forage || self == Activity::Glean
    }
}

/// Roadside gathering is allowed again on this day or later.
pub open spec fn forage_ready(gs: GameState) -> bool {
    match gs.continuity.activities.foraged_on {
        None => true,
        Some(day) => gs.day >= day.saturating_add(FORAGE_COOLDOWN_DAYS),
    }
}

/// Whether the activity may be performed now.
pub open spec fn can_activity_spec(gs: GameState, action: Activity) -> bool {
    if gs.current_encounter is Some || gs.breakdown is Some || gs.continuity.crew_care.pending is Some
        || gs.ending is Some || gs.continuity.abandoned {
        false
    } else if action.is_roadside() {
        &&& gs.continuity.route_services.stop is None
        &&& forage_ready(gs)
        &&& gs.stats.supplies <= if action == Activity::Forage { 18i32 } else { 16i32 }
        &&& (action != Activity::Glean || gs.stats.hp > 1)
    } else {
        &&& gs.continuity.route_services.stop is Some
        &&& gs.continuity.activities.worked_at != gs.continuity.route_services.stop
        &&& (action != Activity::WorkSupplies || gs.stats.supplies <= 16)
        &&& gs.stats.sanity > 0
    }
}

/// Integer division truncating toward zero.
pub open spec fn trunc_div(a: int, b: int) -> int {
    if a >= 0 {
        a / b
    } else {
        -((-a) / b)
    }
}

/// Whole units of a cent amount, as an `i32` when it fits and zero otherwise.
pub open spec fn budget_units(cents: i64) -> i32 {
    let units = trunc_div(cents as int, 100);
    if i32::MIN <= units <= i32::MAX {
        units as i32
    } else {
        0
    }
}

/// The activity's effect on the numbers stays within their types.
pub open spec fn activity_fits(gs: GameState, action: Activity) -> bool {
    match action {
        Activity::Forage => gs.stats.sanity < i32::MAX,
        Activity::WorkCash => gs.budget_cents <= i64::MAX - 1800,
        _ => true,
    }
}

/// The state after performing an allowed activity.
pub open spec fn performed(old: GameState, new: GameState, action: Activity) -> bool {
    let s = old.stats;
    let t = new.stats;
    &&& new.day == clock_after(old.day, old.continuity.clock_minutes, action.minutes_spec()).0
    &&& new.continuity.clock_minutes == clock_after(old.day, old.continuity.clock_minutes, action.minutes_spec()).1
    &&& same_world(GameState { day: new.day, ..old }, new)
    &&& new.party == old.party
    &&& new.ending == old.ending
    &&& t.credibility == s.credibility && t.morale == s.morale && t.allies == s.allies && t.pants == s.pants
    &&& match action {
        Activity::Forage => {
            &&& t.supplies == s.supplies + 2
            &&& t.sanity == if s.sanity + 1 <= 10 { s.sanity + 1 } else { 10 }
            &&& t.hp == s.hp
        },
        Activity::Glean => {
            &&& t.supplies == s.supplies + 4
            &&& t.hp == if s.hp - 1 >= 0 { s.hp - 1 } else { 0 }
            &&& t.sanity == s.sanity
        },
        Activity::WorkSupplies => {
            &&& t.supplies == s.supplies + 4
            &&& t.sanity == if s.sanity - 1 >= 0 { s.sanity - 1 } else { 0 }
            &&& t.hp == s.hp
        },
        Activity::WorkCash => {
            &&& t.supplies == s.supplies
            &&& t.sanity == if s.sanity - 1 >= 0 { s.sanity - 1 } else { 0 }
            &&& t.hp == s.hp
        },
    }
    &&& if action == Activity::WorkCash {
        new.budget_cents == old.budget_cents + 1800 && new.budget == budget_units(new.budget_cents)
    } else {
        new.budget_cents == old.budget_cents && new.budget == old.budget
    }
    &&& if action.is_roadside() {
        new.continuity.activities == TrailActivities {
            foraged_on: Some(old.day),
            ..old.continuity.activities
        }
    } else {
        new.continuity.activities == TrailActivities {
            worked_at: old.continuity.route_services.stop,
            ..old.continuity.activities
        }
    }
    &&& same_account_except_activities(old, new)
}

/// The saved account agrees apart from the activity record and the clock.
pub open spec fn same_account_except_activities(a: GameState, b: GameState) -> bool {
    let c = a.continuity;
    let d = b.continuity;
    &&& c.visual_content == d.visual_content
    &&& c.interactive_repairs == d.interactive_repairs
    &&& c.abandoned == d.abandoned
    &&& c.driving_minutes_total == d.driving_minutes_total
    &&& c.pace_fatigue_remainder == d.pace_fatigue_remainder
    &&& c.last_encounter_driving_minutes == d.last_encounter_driving_minutes
    &&& c.journal == d.journal
    &&& c.turn_journal_start == d.turn_journal_start
    &&& c.ally_notice == d.ally_notice
    &&& c.crew_care == d.crew_care
    &&& c.scene_subject == d.scene_subject
    &&& c.route_services == d.route_services
}

fn i32_from_i64_or_zero(v: i64) -> (r: i32)
    ensures
        r == (if i32::MIN <= v <= i32::MAX { v as i32 } else { 0i32 }),
{
    if i32::MIN as i64 <= v && v <= i32::MAX as i64 {
        v as i32
    } else {
        0
    }
}

impl GameState {
    /// Whether the activity may be performed now.
    pub fn can_activity(&self, action: Activity) -> (r: bool)
        ensures
            r == can_activity_spec(*self, action),
    {
        if self.current_encounter.is_some() || self.breakdown.is_some()
            || self.continuity.crew_care.pending.is_some() || self.ending.is_some()
            || self.continuity.abandoned {
            return false;
        }
        match action {
            Activity::Forage | Activity::Glean => {
                let ready = match self.continuity.activities.foraged_on {
                    None => true,
                    Some(day) => self.day >= day.saturating_add(FORAGE_COOLDOWN_DAYS),
                };
                let cap: i32 = if action == Activity::Forage { 18 } else { 16 };
                self.continuity.route_services.stop.is_none() && ready && self.stats.supplies <= cap
                    && (action != Activity::Glean || self.stats.hp > 1)
            },
            Activity::WorkSupplies | Activity::WorkCash => {
                let worked_elsewhere = match (self.continuity.activities.worked_at, self.continuity.route_services.stop) {
                    (Some(a), Some(b)) => a != b,
                    (None, None) => false,
                    _ => true,
                };
                self.continuity.route_services.stop.is_some() && worked_elsewhere
                    && (action != Activity::WorkSupplies || self.stats.supplies <= 16)
                    && self.stats.sanity > 0
            },
        }
    }

    /// Performs the activity when it is allowed; reports whether it was.
    pub fn perform_activity(&mut self, action: Activity) -> (r: bool)
        requires
            can_activity_spec(*old(self), action) ==> activity_fits(*old(self), action),
        ensures
            r == can_activity_spec(*old(self), action),
            !r ==> *final(self) == *old(self),
            r ==> performed(*old(self), *final(self), action),
    {
        if !self.can_activity(action) {
            return false;
        }
        match action {
            Activity::Forage => {
                self.stats.supplies = self.stats.supplies + 2;
                let s = self.stats.sanity + 1;
                self.stats.sanity = if s <= 10 { s } else { 10 };
            },
            Activity::Glean => {
                self.stats.supplies = self.stats.supplies + 4;
                let h = self.stats.hp - 1;
                self.stats.hp = if h >= 0 { h } else { 0 };
            },
            Activity::WorkSupplies => {
                self.stats.supplies = self.stats.supplies + 4;
                let s = self.stats.sanity - 1;
                self.stats.sanity = if s >= 0 { s } else { 0 };
            },
            Activity::WorkCash => {
                self.budget_cents = self.budget_cents + 1800;
                self.budget = i32_from_i64_or_zero(self.budget_cents / 100);
                let s = self.stats.sanity - 1;
                self.stats.sanity = if s >= 0 { s } else { 0 };
            },
        }
        if action == Activity::Forage || action == Activity::Glean {
            self.continuity.activities.foraged_on = Some(self.day);
        } else {
            self.continuity.activities.worked_at = self.continuity.route_services.stop;
        }
        let (day, clock) = clock_after_exec(self.day, self.continuity.clock_minutes, action.minutes());
        self.day = day;
        self.continuity.clock_minutes = clock;
        true
    }

    /// Days until roadside gathering is allowed again.
    pub fn forage_cooldown_days(&self) -> (r: u32)
        ensures
            r == match self.continuity.activities.foraged_on {
                None => 0u32,
                Some(day) => day.saturating_add(FORAGE_COOLDOWN_DAYS).saturating_sub(self.day),
            },
    {
        match self.continuity.activities.foraged_on {
            None => 0,
            Some(day) => day.saturating_add(FORAGE_COOLDOWN_DAYS).saturating_sub(self.day),
        }
    }
}

/// Gathering cannot be farmed: after a roadside activity no roadside activity
/// is possible again on the same day.
pub proof fn lemma_no_second_gathering_same_day(old: GameState, new: GameState, done: Activity, next: Activity)
    requires
        performed(old, new, done),
        done.is_roadside(),
        next.is_roadside(),
        old.day <= u32::MAX - FORAGE_COOLDOWN_DAYS,
    ensures
        !can_activity_spec(new, next),
{
}

/// Paid work cannot be farmed: after working at a stop no work is possible
/// again at that stop.
pub proof fn lemma_no_second_work_same_stop(old: GameState, new: GameState, done: Activity, next: Activity)
    requires
        performed(old, new, done),
        !done.is_roadside(),
        !next.is_roadside(),
    ensures
        !can_activity_spec(new, next),
{
}

/// Gathering is possible again once the cooldown has passed, other conditions
/// unchanged.
pub proof fn lemma_gathering_after_cooldown(gs: GameState, day: u32)
    requires
        gs.continuity.activities.foraged_on == Some(day),
        day <= u32::MAX - FORAGE_COOLDOWN_DAYS,
        gs.day >= day + FORAGE_COOLDOWN_DAYS,
    ensures
        forage_ready(gs),
{
}

} // verus!
