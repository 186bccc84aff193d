//! Day accounting: stop caps over the recent travel history and the rotation
//! travel-day counter.
use crate::constants::TRAVEL_HISTORY_WINDOW;
use crate::journey::TravelDayKind;
use crate::state::{GameMode, GameState, PolicyKind};
use std::collections::VecDeque;
use vstd::prelude::*;

verus! {

broadcast use vstd::std_specs::vecdeque::group_vec_dequeue_axioms;

/// Number of non-travel days in `days`.
pub open spec fn stop_count(days: Seq<TravelDayKind>) -> nat
    decreases days.len(),
{
    if days.len() == 0 {
        0
    } else {
        stop_count(days.drop_last()) + if days.last() == TravelDayKind::NonTravel { 1nat } else { 0nat }
    }
}

/// The last `window` entries of `days` (all of them when there are fewer).
pub open spec fn last_n(days: Seq<TravelDayKind>, window: nat) -> Seq<TravelDayKind> {
    if days.len() <= window {
        days
    } else {
        days.subrange(days.len() - window, days.len() as int)
    }
}

/// Non-travel days among the last `window` recorded days.
fn recent_stops(days: &VecDeque<TravelDayKind>, window: usize) -> (r: usize)
    ensures
        r == stop_count(last_n(days@, window as nat)),
{
    let len = days.len();
    let start: usize = if len <= window { 0 } else { len - window };
    let ghost s = days@.subrange(start as int, len as int);
    assert(last_n(days@, window as nat) =~= s);
    let mut count: usize = 0;
    let mut i: usize = start;
    assert(days@.subrange(start as int, start as int) =~= Seq::<TravelDayKind>::empty());
    while i < len
        invariant
            start <= i <= len,
            len == days@.len(),
            count == stop_count(days@.subrange(start as int, i as int)),
            count <= i - start,
        decreases len - i,
    {
        assert(days@.subrange(start as int, i + 1).drop_last() =~= days@.subrange(start as int, i as int));
        if days[i] == TravelDayKind::NonTravel {
            count = count + 1;
        }
        i = i + 1;
    }
    count
}

/// Non-travel days allowed in the ratio window before a stop turns partial:
/// two for a conservative deep run, else one.
pub open spec fn ratio_stop_limit_spec(gs: GameState) -> usize {
    if gs.mode == GameMode::Deep && gs.policy == Some(PolicyKind::Conservative) {
        2
    } else {
        1
    }
}

pub fn ratio_stop_limit(gs: &GameState) -> (r: usize)
    ensures
        r == ratio_stop_limit_spec(*gs),
{
    let conservative = match gs.policy {
        Some(PolicyKind::Conservative) => true,
        _ => false,
    };
    if gs.mode.is_deep() && conservative {
        2
    } else {
        1
    }
}

/// The recent history already holds as many stops as the ratio allows.
pub open spec fn ratio_floor_spec(gs: GameState) -> bool {
    stop_count(last_n(gs.recent_travel_days@, (TRAVEL_HISTORY_WINDOW - 1) as nat)) >= ratio_stop_limit_spec(gs)
}

/// Whether another full stop would break the travel-ratio floor.
pub fn enforce_ratio_floor(gs: &GameState) -> (r: bool)
    ensures
        r == ratio_floor_spec(*gs),
{
    let window = TRAVEL_HISTORY_WINDOW - 1;
    let stop_cap = ratio_stop_limit(gs);
    recent_stops(&gs.recent_travel_days, window) >= stop_cap
}

/// The endgame allows no more full stops in its window.
pub open spec fn endgame_stop_cap_spec(gs: GameState) -> bool {
    if !gs.endgame.active {
        false
    } else if gs.endgame.stop_cap_max_full == 0 {
        true
    } else {
        let window: nat = if gs.endgame.stop_cap_window >= 1 { gs.endgame.stop_cap_window as nat } else { 1 };
        stop_count(last_n(gs.recent_travel_days@, window)) >= gs.endgame.stop_cap_max_full
    }
}

/// Whether the endgame's stop cap turns another full stop partial.
pub fn enforce_endgame_stop_cap(gs: &GameState) -> (r: bool)
    ensures
        r == endgame_stop_cap_spec(*gs),
{
    if !gs.endgame.active {
        return false;
    }
    let window: usize = if gs.endgame.stop_cap_window >= 1 { gs.endgame.stop_cap_window as usize } else { 1 };
    let max_full = gs.endgame.stop_cap_max_full as usize;
    if max_full == 0 {
        return true;
    }
    recent_stops(&gs.recent_travel_days, window) >= max_full
}

/// A first record of a travel or partial day counts toward rotation.
pub fn apply_initial_counters(gs: &mut GameState, kind: TravelDayKind)
    ensures
        final(gs).rotation_travel_days == if kind != TravelDayKind::NonTravel {
            old(gs).rotation_travel_days.saturating_add(1)
        } else {
            old(gs).rotation_travel_days
        },
        *final(gs) == (GameState { rotation_travel_days: final(gs).rotation_travel_days, ..*old(gs) }),
{
    if kind != TravelDayKind::NonTravel {
        gs.rotation_travel_days = gs.rotation_travel_days.saturating_add(1);
    }
}

/// Rotation counter after a day changes kind from `existing` to `next`.
pub open spec fn transition_count(count: u32, existing: TravelDayKind, next: TravelDayKind) -> u32 {
    let up = (next == TravelDayKind::Travel && existing != TravelDayKind::Travel) || (existing
        == TravelDayKind::NonTravel && next == TravelDayKind::Partial);
    let down = existing != TravelDayKind::NonTravel && next == TravelDayKind::NonTravel;
    if up {
        count.saturating_add(1)
    } else if down {
        count.saturating_sub(1)
    } else {
        count
    }
}

/// Moves the rotation counter when a recorded day changes kind: up when it
/// becomes travel (or partial from a stop), down when it becomes a stop.
pub fn adjust_counters_for_transition(gs: &mut GameState, existing: TravelDayKind, next: TravelDayKind)
    ensures
        final(gs).rotation_travel_days == transition_count(old(gs).rotation_travel_days, existing, next),
        *final(gs) == (GameState { rotation_travel_days: final(gs).rotation_travel_days, ..*old(gs) }),
{
    match (existing, next) {
        (TravelDayKind::Partial, TravelDayKind::Travel)
        | (TravelDayKind::NonTravel, TravelDayKind::Travel)
        | (TravelDayKind::NonTravel, TravelDayKind::Partial) => {
            gs.rotation_travel_days = gs.rotation_travel_days.saturating_add(1);
        },
        (TravelDayKind::Partial, TravelDayKind::NonTravel)
        | (TravelDayKind::Travel, TravelDayKind::NonTravel) => {
            gs.rotation_travel_days = gs.rotation_travel_days.saturating_sub(1);
        },
        _ => {},
    }
}

/// A day that turns between a stop and a travel or partial day and back
/// leaves the counter where it was, unless it saturated at zero on the way.
pub proof fn lemma_transition_roundtrip(count: u32, a: TravelDayKind, b: TravelDayKind)
    requires
        count < u32::MAX,
        (a == TravelDayKind::NonTravel) != (b == TravelDayKind::NonTravel),
    ensures
        transition_count(transition_count(count, a, b), b, a) == count || (count == 0
            && a != TravelDayKind::NonTravel),
{
}

/// Why a requested stop was recorded as a partial day.
#[derive(Debug, Clone, Copy, PartialEq, Eq, Structural)]
pub enum DayCapTag {
    /// The travel-ratio floor allowed no further stop.
    StopCap,
    /// The endgame stop cap allowed no further stop.
    AutoCap,
}

impl DayCapTag {
    /// The day reason tag that the day record carries.
    pub fn as_str(&self) -> (r: &'static str)
        ensures
            r@ == (match *self {
                DayCapTag::StopCap => "stop_cap"@,
                DayCapTag::AutoCap => "auto_cap"@,
            }),
    {
        match self {
            DayCapTag::StopCap => "stop_cap",
            DayCapTag::AutoCap => "auto_cap",
        }
    }
}

/// The kind a day is recorded as, and the cap that changed it: a requested
/// stop becomes partial when the ratio floor (unless suppressed for the day)
/// or the endgame stop cap allows no further stop.
pub open spec fn effective_day_kind(gs: GameState, kind: TravelDayKind) -> (TravelDayKind, Option<DayCapTag>) {
    if kind == TravelDayKind::NonTravel && !gs.suppress_stop_ratio && ratio_floor_spec(gs) {
        (TravelDayKind::Partial, Some(DayCapTag::StopCap))
    } else if kind == TravelDayKind::NonTravel && endgame_stop_cap_spec(gs) {
        (TravelDayKind::Partial, Some(DayCapTag::AutoCap))
    } else {
        (kind, None)
    }
}

/// The rotation counter after the day is recorded as `kind`: a first record
/// counts a travel or partial day, a changed record moves the counter.
pub open spec fn recorded_rotation_count(gs: GameState, kind: TravelDayKind) -> u32 {
    match gs.current_day_kind {
        None => if kind != TravelDayKind::NonTravel {
            gs.rotation_travel_days.saturating_add(1)
        } else {
            gs.rotation_travel_days
        },
        Some(existing) => transition_count(gs.rotation_travel_days, existing, kind),
    }
}

/// The state after the current day is recorded as the effective kind for `kind`.
pub open spec fn record_day_kind_state(gs: GameState, kind: TravelDayKind) -> GameState {
    let eff = effective_day_kind(gs, kind).0;
    GameState {
        rotation_travel_days: recorded_rotation_count(gs, eff),
        current_day_kind: Some(eff),
        traveled_today: eff == TravelDayKind::Travel,
        partial_traveled_today: eff == TravelDayKind::Partial,
        ..gs
    }
}

/// Records the current day's kind: applies the stop caps, keeps the rotation
/// counter in step with the recorded kind and sets the travelled flags.
/// Returns the recorded kind and the cap that changed it, if any. Mileage is
/// credited separately.
pub fn record_day_kind(gs: &mut GameState, kind: TravelDayKind) -> (r: (TravelDayKind, Option<DayCapTag>))
    ensures
        r == effective_day_kind(*old(gs), kind),
        *final(gs) == record_day_kind_state(*old(gs), kind),
{
    let mut effective = kind;
    let mut tag: Option<DayCapTag> = None;
    if effective == TravelDayKind::NonTravel && !gs.suppress_stop_ratio && enforce_ratio_floor(gs) {
        effective = TravelDayKind::Partial;
        tag = Some(DayCapTag::StopCap);
    }
    if effective == TravelDayKind::NonTravel && enforce_endgame_stop_cap(gs) {
        effective = TravelDayKind::Partial;
        tag = Some(DayCapTag::AutoCap);
    }
    match gs.current_day_kind {
        None => {
            apply_initial_counters(gs, effective);
        },
        Some(existing) => {
            if existing != effective {
                adjust_counters_for_transition(gs, existing, effective);
            }
        },
    }
    gs.current_day_kind = Some(effective);
    match effective {
        TravelDayKind::Travel => {
            gs.traveled_today = true;
            gs.partial_traveled_today = false;
        },
        TravelDayKind::Partial => {
            gs.traveled_today = false;
            gs.partial_traveled_today = true;
        },
        TravelDayKind::NonTravel => {
            gs.traveled_today = false;
            gs.partial_traveled_today = false;
        },
    }
    (effective, tag)
}

/// Recording the same kind twice in one day is the same as recording it once:
/// the second record finds the day already of that kind.
pub proof fn lemma_record_day_kind_idempotent(gs: GameState, kind: TravelDayKind)
    ensures
        effective_day_kind(record_day_kind_state(gs, kind), kind) == effective_day_kind(gs, kind),
        record_day_kind_state(record_day_kind_state(gs, kind), kind) == record_day_kind_state(gs, kind),
{
    let once = record_day_kind_state(gs, kind);
    assert(once.recent_travel_days@ == gs.recent_travel_days@);
    assert(ratio_floor_spec(once) == ratio_floor_spec(gs));
    assert(endgame_stop_cap_spec(once) == endgame_stop_cap_spec(gs));
    let eff = effective_day_kind(gs, kind).0;
    assert(transition_count(once.rotation_travel_days, eff, eff) == once.rotation_travel_days);
}

/// A recorded stop is never left a stop while a cap forbids it, and a
/// travel or partial request is recorded as asked.
pub proof fn lemma_caps_only_turn_stops_partial(gs: GameState, kind: TravelDayKind)
    ensures
        kind != TravelDayKind::NonTravel ==> effective_day_kind(gs, kind) == (kind, None::<DayCapTag>),
        effective_day_kind(gs, kind).0 == TravelDayKind::NonTravel ==> {
            &&& kind == TravelDayKind::NonTravel
            &&& gs.suppress_stop_ratio || !ratio_floor_spec(gs)
            &&& !endgame_stop_cap_spec(gs)
        },
{
}

/// A conservative Deep run may take two stops in the travel-ratio window:
/// with at most one stop among the last `TRAVEL_HISTORY_WINDOW - 1` days and
/// no endgame running, a requested stop is recorded as a stop, uncapped; a
/// third stop is capped to a partial day unless the floor is suppressed.
pub proof fn lemma_conservative_deep_takes_two_stops(gs: GameState)
    requires
        gs.mode == GameMode::Deep,
        gs.policy == Some(PolicyKind::Conservative),
        !gs.endgame.active,
    ensures
        stop_count(last_n(gs.recent_travel_days@, (TRAVEL_HISTORY_WINDOW - 1) as nat)) <= 1
            ==> effective_day_kind(gs, TravelDayKind::NonTravel) == (TravelDayKind::NonTravel, None::<DayCapTag>),
        stop_count(last_n(gs.recent_travel_days@, (TRAVEL_HISTORY_WINDOW - 1) as nat)) >= 2 && !gs.suppress_stop_ratio
            ==> effective_day_kind(gs, TravelDayKind::NonTravel) == (TravelDayKind::Partial, Some(DayCapTag::StopCap)),
{
}

/// Every other run may take one stop in the travel-ratio window: with a stop
/// among the last `TRAVEL_HISTORY_WINDOW - 1` days (and the floor not
/// suppressed) a requested stop becomes a capped partial day, and with none
/// (and no endgame running) it stays a stop.
pub proof fn lemma_other_runs_take_one_stop(gs: GameState)
    requires
        !(gs.mode == GameMode::Deep && gs.policy == Some(PolicyKind::Conservative)),
        !gs.endgame.active,
    ensures
        stop_count(last_n(gs.recent_travel_days@, (TRAVEL_HISTORY_WINDOW - 1) as nat)) >= 1 && !gs.suppress_stop_ratio
            ==> effective_day_kind(gs, TravelDayKind::NonTravel) == (TravelDayKind::Partial, Some(DayCapTag::StopCap)),
        stop_count(last_n(gs.recent_travel_days@, (TRAVEL_HISTORY_WINDOW - 1) as nat)) == 0
            ==> effective_day_kind(gs, TravelDayKind::NonTravel) == (TravelDayKind::NonTravel, None::<DayCapTag>),
{
}

} // verus!
