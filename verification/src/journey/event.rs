//! Identifiers and descriptors of simulation events.
use vstd::prelude::*;

verus! {

/// Stable identifier of an event: its day and its position within the day.
#[derive(Debug, Clone, Copy, PartialEq, Eq, Structural)]
pub struct EventId {
    pub day: u32,
    pub seq: u16,
}

impl EventId {
    pub fn new(day: u32, seq: u16) -> (r: EventId)
        ensures
            r.day == day,
            r.seq == seq,
    {
        EventId { day, seq }
    }
}

/// Mechanical kind of a simulation event.
#[derive(Debug, Clone, Copy, PartialEq, Eq, Structural)]
pub enum EventKind {
    LegacyLogKey,
    WeatherResolved,
    DailyConsumptionApplied,
    HealthTickApplied,
    GeneralStrainComputed,
    ExecOrderStarted,
    ExecOrderEnded,
    BreakdownStarted,
    BreakdownResolved,
    EncounterTriggered,
    RandomEventResolved,
    TradeResolved,
    HuntResolved,
    AfflictionTriggered,
    NavigationEvent,
    CrossingResolved,
    TravelBlocked,
}

/// Severity tier of an event.
#[derive(Debug, Clone, Copy, PartialEq, Eq, Structural)]
pub enum EventSeverity {
    Info,
    Warning,
    Critical,
}

/// How the interface should surface an event.
#[derive(Debug, Clone, Copy, PartialEq, Eq, Structural)]
pub enum UiSurfaceHint {
    Log,
    Toast,
    Modal,
}

} // verus!
