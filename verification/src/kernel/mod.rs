//! Kernel facade: stable event codes and tick inputs.
pub mod systems;

use crate::journey::event::EventKind;
use crate::state::DayIntent;
use vstd::prelude::*;

verus! {

/// Input of one daily tick.
#[derive(Debug, Clone, Copy, PartialEq, Eq, Structural)]
pub struct KernelTickInput {
    pub intent: DayIntent,
}

/// Deterministic event code for translation and display.
#[derive(Debug, Clone, Copy, PartialEq, Eq, Structural)]
pub enum KernelEventCode {
    LegacyLog,
    WeatherResolved,
    DailyConsumptionApplied,
    HealthTickApplied,
    GeneralStrainComputed,
    ExecOrderStarted,
    ExecOrderEnded,
    BreakdownStarted,
    BreakdownResolved,
    EncounterTriggered,
    RandomEventResolved,
    TradeResolved,
    HuntResolved,
    AfflictionTriggered,
    NavigationEvent,
    CrossingResolved,
    TravelBlocked,
}

impl KernelEventCode {
    pub open spec fn as_str_spec(self) -> Seq<char> {
        match self {
            KernelEventCode::LegacyLog => "event.legacy.log"@,
            KernelEventCode::WeatherResolved => "event.weather.resolved"@,
            KernelEventCode::DailyConsumptionApplied => "event.supplies.daily_consumption_applied"@,
            KernelEventCode::HealthTickApplied => "event.health.tick_applied"@,
            KernelEventCode::GeneralStrainComputed => "event.health.general_strain_computed"@,
            KernelEventCode::ExecOrderStarted => "event.exec_order.started"@,
            KernelEventCode::ExecOrderEnded => "event.exec_order.ended"@,
            KernelEventCode::BreakdownStarted => "event.vehicle.breakdown_started"@,
            KernelEventCode::BreakdownResolved => "event.vehicle.breakdown_resolved"@,
            KernelEventCode::EncounterTriggered => "event.encounter.triggered"@,
            KernelEventCode::RandomEventResolved => "event.random.resolved"@,
            KernelEventCode::TradeResolved => "event.trade.resolved"@,
            KernelEventCode::HuntResolved => "event.hunt.resolved"@,
            KernelEventCode::AfflictionTriggered => "event.affliction.triggered"@,
            KernelEventCode::NavigationEvent => "event.navigation.resolved"@,
            KernelEventCode::CrossingResolved => "event.crossing.resolved"@,
            KernelEventCode::TravelBlocked => "event.travel.blocked"@,
        }
    }

    /// The code's stable text.
    pub fn as_str(self) -> (r: &'static str)
        ensures
            r@ == self.as_str_spec(),
    {
        match self {
            KernelEventCode::LegacyLog => "event.legacy.log",
            KernelEventCode::WeatherResolved => "event.weather.resolved",
            KernelEventCode::DailyConsumptionApplied => "event.supplies.daily_consumption_applied",
            KernelEventCode::HealthTickApplied => "event.health.tick_applied",
            KernelEventCode::GeneralStrainComputed => "event.health.general_strain_computed",
            KernelEventCode::ExecOrderStarted => "event.exec_order.started",
            KernelEventCode::ExecOrderEnded => "event.exec_order.ended",
            KernelEventCode::BreakdownStarted => "event.vehicle.breakdown_started",
            KernelEventCode::BreakdownResolved => "event.vehicle.breakdown_resolved",
            KernelEventCode::EncounterTriggered => "event.encounter.triggered",
            KernelEventCode::RandomEventResolved => "event.random.resolved",
            KernelEventCode::TradeResolved => "event.trade.resolved",
            KernelEventCode::HuntResolved => "event.hunt.resolved",
            KernelEventCode::AfflictionTriggered => "event.affliction.triggered",
            KernelEventCode::NavigationEvent => "event.navigation.resolved",
            KernelEventCode::CrossingResolved => "event.crossing.resolved",
            KernelEventCode::TravelBlocked => "event.travel.blocked",
        }
    }
}

/// The code of each event kind.
pub open spec fn code_of(value: EventKind) -> KernelEventCode {
    match value {
        EventKind::LegacyLogKey => KernelEventCode::LegacyLog,
        EventKind::WeatherResolved => KernelEventCode::WeatherResolved,
        EventKind::DailyConsumptionApplied => KernelEventCode::DailyConsumptionApplied,
        EventKind::HealthTickApplied => KernelEventCode::HealthTickApplied,
        EventKind::GeneralStrainComputed => KernelEventCode::GeneralStrainComputed,
        EventKind::ExecOrderStarted => KernelEventCode::ExecOrderStarted,
        EventKind::ExecOrderEnded => KernelEventCode::ExecOrderEnded,
        EventKind::BreakdownStarted => KernelEventCode::BreakdownStarted,
        EventKind::BreakdownResolved => KernelEventCode::BreakdownResolved,
        EventKind::EncounterTriggered => KernelEventCode::EncounterTriggered,
        EventKind::RandomEventResolved => KernelEventCode::RandomEventResolved,
        EventKind::TradeResolved => KernelEventCode::TradeResolved,
        EventKind::HuntResolved => KernelEventCode::HuntResolved,
        EventKind::AfflictionTriggered => KernelEventCode::AfflictionTriggered,
        EventKind::NavigationEvent => KernelEventCode::NavigationEvent,
        EventKind::CrossingResolved => KernelEventCode::CrossingResolved,
        EventKind::TravelBlocked => KernelEventCode::TravelBlocked,
    }
}

impl<'a> From<&'a EventKind> for KernelEventCode {
    fn from(value: &'a EventKind) -> (r: Self) {
        match value {
            EventKind::LegacyLogKey => KernelEventCode::LegacyLog,
            EventKind::WeatherResolved => KernelEventCode::WeatherResolved,
            EventKind::DailyConsumptionApplied => KernelEventCode::DailyConsumptionApplied,
            EventKind::HealthTickApplied => KernelEventCode::HealthTickApplied,
            EventKind::GeneralStrainComputed => KernelEventCode::GeneralStrainComputed,
            EventKind::ExecOrderStarted => KernelEventCode::ExecOrderStarted,
            EventKind::ExecOrderEnded => KernelEventCode::ExecOrderEnded,
            EventKind::BreakdownStarted => KernelEventCode::BreakdownStarted,
            EventKind::BreakdownResolved => KernelEventCode::BreakdownResolved,
            EventKind::EncounterTriggered => KernelEventCode::EncounterTriggered,
            EventKind::RandomEventResolved => KernelEventCode::RandomEventResolved,
            EventKind::TradeResolved => KernelEventCode::TradeResolved,
            EventKind::HuntResolved => KernelEventCode::HuntResolved,
            EventKind::AfflictionTriggered => KernelEventCode::AfflictionTriggered,
            EventKind::NavigationEvent => KernelEventCode::NavigationEvent,
            EventKind::CrossingResolved => KernelEventCode::CrossingResolved,
            EventKind::TravelBlocked => KernelEventCode::TravelBlocked,
        }
    }
}

impl<'a> vstd::std_specs::convert::FromSpecImpl<&'a EventKind> for KernelEventCode {
    open spec fn obeys_from_spec() -> bool {
        true
    }

    open spec fn from_spec(value: &'a EventKind) -> KernelEventCode {
        code_of(*value)
    }
}

/// Distinct event kinds have distinct codes: no kind is shadowed by another.
pub proof fn lemma_code_of_injective(a: EventKind, b: EventKind)
    ensures
        code_of(a) == code_of(b) ==> a == b,
{
}

/// Why a kernel session cannot be made.
#[derive(Debug, Clone, Copy, PartialEq, Eq, Structural)]
pub enum KernelSessionError {
    NonOtDeluxePolicy,
}

impl KernelSessionError {
    /// The error's message.
    pub fn message(&self) -> (r: &'static str)
        ensures
            r@ == "OTDeluxe kernel session requires OTDeluxe mechanical policy"@,
    {
        "OTDeluxe kernel session requires OTDeluxe mechanical policy"
    }
}

} // verus!
