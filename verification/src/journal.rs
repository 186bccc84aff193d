//! The saved, player-facing account of the journey.
use crate::activities::TrailActivities;
use crate::crew_care::CrewCare;
use crate::state::{DietId, GameState, PaceId, Stats};
use crate::strmap::StrMap;
use vstd::prelude::*;

verus! {

/// Presentation edition and sealed story choices.
pub struct VisualContent {
    pub edition: u16,
    pub selections: StrMap<String>,
}

impl VisualContent {
    /// Edition zero with no selections.
    pub fn new() -> (v: VisualContent)
        ensures
            v.edition == 0,
            v.selections@ == Map::<Seq<char>, String>::empty(),
    {
        VisualContent { edition: 0, selections: StrMap::new() }
    }
}

/// The stop the party is parked at, if any.
#[derive(Debug, Clone, Copy, PartialEq, Eq, Structural)]
pub struct RouteServices {
    pub stop: Option<u32>,
}

/// A change of one resource, in its smallest unit.
#[derive(Debug, Clone)]
pub struct ResourceChange {
    pub key: String,
    pub before: i64,
    pub after: i64,
}

/// One recorded action with the stats before and after it.
#[derive(Debug, Clone)]
pub struct JournalEntry {
    pub action_kind: String,
    pub day: u32,
    pub minute: u16,
    pub pace: Option<PaceId>,
    pub diet: Option<DietId>,
    pub place: String,
    pub title: String,
    pub message: String,
    pub before: Stats,
    pub after: Stats,
    pub details: Vec<(String, String)>,
    pub resources: Vec<ResourceChange>,
}

/// The start of the travel day, in minutes after midnight.
pub open spec fn morning_spec() -> u16 {
    480
}

/// Eight o'clock in the morning, in minutes after midnight.
pub fn morning() -> (r: u16)
    ensures
        r == morning_spec(),
{
    8 * 60
}

/// Start of the daily driving window, in minutes after midnight.
pub const TRAVEL_DAY_START: u16 = 480;

/// End of the daily driving window, in minutes after midnight.
pub const TRAVEL_DAY_END: u16 = 780;

/// Minutes of work one day's window holds.
pub open spec fn window_minutes() -> int {
    TRAVEL_DAY_END - TRAVEL_DAY_START
}

/// Day and clock after `minutes` of work begun at `clock` on `day`. Work
/// starts no earlier than the window opens; whenever the window is used up
/// and work remains, the day closes and work resumes next morning (a clock
/// already past the window closes the day first). Zero minutes change nothing.
pub open spec fn clock_after(day: u32, clock: u16, minutes: u16) -> (u32, u16) {
    if minutes == 0 {
        (day, clock)
    } else {
        let c: int = if clock < TRAVEL_DAY_START { TRAVEL_DAY_START as int } else { clock as int };
        let closed: int = if c >= TRAVEL_DAY_END { 1 } else { 0 };
        let used: int = if c >= TRAVEL_DAY_END { 0 } else { c - TRAVEL_DAY_START };
        let total: int = used + minutes;
        let rollovers: int = (total - 1) / window_minutes();
        let d: int = day + closed + rollovers;
        (if d <= u32::MAX { d as u32 } else { u32::MAX }, (TRAVEL_DAY_START + total - window_minutes() * rollovers) as u16)
    }
}

/// Exec form of `clock_after`.
pub fn clock_after_exec(day: u32, clock: u16, minutes: u16) -> (r: (u32, u16))
    ensures
        r == clock_after(day, clock, minutes),
{
    if minutes == 0 {
        return (day, clock);
    }
    let c: u32 = if clock < TRAVEL_DAY_START { TRAVEL_DAY_START as u32 } else { clock as u32 };
    let closed: u64 = if c >= TRAVEL_DAY_END as u32 { 1 } else { 0 };
    let used: u32 = if c >= TRAVEL_DAY_END as u32 { 0 } else { c - TRAVEL_DAY_START as u32 };
    let total: u32 = used + minutes as u32;
    let window: u32 = (TRAVEL_DAY_END - TRAVEL_DAY_START) as u32;
    let rollovers: u32 = (total - 1) / window;
    assert(0 < total - window * rollovers <= window) by (nonlinear_arith)
        requires
            window == 300,
            total >= 1,
            rollovers == (total - 1) as int / 300,
    ;
    let d: u64 = day as u64 + closed + rollovers as u64;
    let new_day: u32 = if d <= u32::MAX as u64 { d as u32 } else { u32::MAX };
    (new_day, (TRAVEL_DAY_START as u32 + total - window * rollovers) as u16)
}

/// The saved account of the journey and its checkpoints.
pub struct Continuity {
    pub visual_content: VisualContent,
    pub interactive_repairs: bool,
    pub activities: TrailActivities,
    pub abandoned: bool,
    pub clock_minutes: u16,
    pub driving_minutes_total: u32,
    pub pace_fatigue_remainder: u16,
    pub last_encounter_driving_minutes: Option<u32>,
    pub journal: Vec<JournalEntry>,
    pub turn_journal_start: Option<usize>,
    pub ally_notice: Option<JournalEntry>,
    pub crew_care: CrewCare,
    pub scene_subject: Option<String>,
    pub route_services: RouteServices,
}

/// First journal position shown for the current turn.
pub open spec fn turn_start(c: Continuity) -> int {
    match c.turn_journal_start {
        Some(start) => start as int,
        None => if c.journal@.len() == 0 {
            0
        } else {
            c.journal@.len() - 1
        },
    }
}

/// Entries of the current turn: from the turn start to the end, or none when
/// the start lies past the end.
pub open spec fn turn_entries_spec(c: Continuity) -> Seq<JournalEntry> {
    let start = turn_start(c);
    if start <= c.journal@.len() {
        c.journal@.subrange(start, c.journal@.len() as int)
    } else {
        Seq::empty()
    }
}

impl Continuity {
    /// A fresh account: morning, empty journal, nothing pending.
    pub fn new() -> (c: Continuity)
        ensures
            c.clock_minutes == morning_spec(),
            c.visual_content.edition == 0,
            c.visual_content.selections@ == Map::<Seq<char>, String>::empty(),
            !c.interactive_repairs,
            c.driving_minutes_total == 0,
            c.pace_fatigue_remainder == 0,
            c.last_encounter_driving_minutes is None,
            c.scene_subject is None,
            c.activities.local_word is None,
            c.crew_care.reason == 0,
            c.journal@.len() == 0,
            c.turn_journal_start is None,
            c.ally_notice is None,
            !c.abandoned,
            c.route_services.stop is None,
            c.activities.foraged_on is None,
            c.activities.worked_at is None,
            c.crew_care.pending is None,
            c.crew_care.strain@ == Map::<Seq<char>, u8>::empty(),
            c.crew_care.last_check_day == 0,
    {
        Continuity {
            visual_content: VisualContent::new(),
            interactive_repairs: false,
            activities: TrailActivities::new(),
            abandoned: false,
            clock_minutes: morning(),
            driving_minutes_total: 0,
            pace_fatigue_remainder: 0,
            last_encounter_driving_minutes: None,
            journal: Vec::new(),
            turn_journal_start: None,
            ally_notice: None,
            crew_care: CrewCare::new(),
            scene_subject: None,
            route_services: RouteServices { stop: None },
        }
    }

    /// Starts a fresh turn report without removing anything from the journal.
    pub fn begin_turn(&mut self)
        ensures
            final(self).turn_journal_start == Some(old(self).journal@.len() as usize),
            final(self).journal@ == old(self).journal@,
    {
        self.turn_journal_start = Some(self.journal.len());
    }

    /// Chronological entries of the current turn; an unstarted history shows
    /// its latest entry.
    pub fn turn_entries(&self) -> (r: &[JournalEntry])
        ensures
            r@ == turn_entries_spec(*self),
    {
        let len = self.journal.len();
        let start = match self.turn_journal_start {
            Some(start) => start,
            None => if len == 0 { 0 } else { len - 1 },
        };
        let all = self.journal.as_slice();
        if start <= len {
            vstd::slice::slice_subrange(all, start, len)
        } else {
            vstd::slice::slice_subrange(all, len, len)
        }
    }
}

/// After a turn begins, the turn holds exactly the entries added since.
pub proof fn lemma_turn_holds_entries_since_begin(c: Continuity, start: usize)
    requires
        c.turn_journal_start == Some(start),
        start as int <= c.journal@.len(),
    ensures
        turn_entries_spec(c) == c.journal@.subrange(start as int, c.journal@.len() as int),
        start as int == c.journal@.len() ==> turn_entries_spec(c).len() == 0,
{
}

impl GameState {
    /// Actions share the driving window; unfinished work resumes next
    /// morning. When the day already moved on since `before`, the clock
    /// restarts at morning; otherwise `minutes` of work are spent from
    /// `before`'s clock. Zero minutes never spend time.
    pub fn advance_clock(&mut self, before: &GameState, minutes: u16)
        ensures
            minutes == 0 ==> *final(self) == *old(self),
            minutes != 0 && old(self).day > before.day ==> *final(self) == (GameState {
                continuity: Continuity { clock_minutes: morning_spec(), ..old(self).continuity },
                ..*old(self)
            }),
            minutes != 0 && old(self).day <= before.day ==> *final(self) == (GameState {
                day: clock_after(old(self).day, before.continuity.clock_minutes, minutes).0,
                continuity: Continuity {
                    clock_minutes: clock_after(old(self).day, before.continuity.clock_minutes, minutes).1,
                    ..old(self).continuity
                },
                ..*old(self)
            }),
    {
        if minutes == 0 {
            return;
        }
        if self.day > before.day {
            self.continuity.clock_minutes = morning();
        } else {
            let (day, clock) = clock_after_exec(self.day, before.continuity.clock_minutes, minutes);
            self.day = day;
            self.continuity.clock_minutes = clock;
        }
    }
}

} // verus!
