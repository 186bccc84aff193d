use dystrail_game::constants::{ENCOUNTER_REPEAT_WINDOW_DAYS, TRAVEL_HISTORY_WINDOW};
use dystrail_game::coverage_anchor::coverage_checksum;
use dystrail_game::day_accounting::enforce_ratio_floor;
use dystrail_game::disease::DiseaseKind;
use dystrail_game::encounters::{determine_selection, parse_region, rotation_ready};
use dystrail_game::endgame::policy_key_for_mode;
use dystrail_game::journal::{morning, Continuity, JournalEntry};
use dystrail_game::journey::event::EventKind;
use dystrail_game::journey::{
    DayTag, PolicyId, RngPhase, RngStream, RngStreamMask, StrategyId, TravelDayKind,
};
use dystrail_game::journey::phase::IntentState;
use dystrail_game::kernel::KernelEventCode;
use dystrail_game::kernel::systems::navigation::{pick_navigation_event, OtDeluxeNavigationEvent};
use dystrail_game::state::{DayIntent, DietId, GameMode, GameState, PaceId, PolicyKind, Region, Stats};
use dystrail_game::strmap::StrMap;
use std::collections::VecDeque;

#[test]
fn checksum_executes() {
    let value = coverage_checksum(0x1234_5678);
    assert_eq!(value, coverage_checksum(0x1234_5678));
    assert_ne!(value, 0);
}

#[test]
fn enforce_ratio_floor_checks_recent_history() {
    let mut state = GameState::default();
    state.recent_travel_days = VecDeque::from(vec![TravelDayKind::NonTravel; TRAVEL_HISTORY_WINDOW]);
    assert!(enforce_ratio_floor(&state));

    state.mode = GameMode::Deep;
    state.policy = Some(PolicyKind::Conservative);
    state.recent_travel_days = VecDeque::from(vec![TravelDayKind::NonTravel; TRAVEL_HISTORY_WINDOW]);
    assert!(enforce_ratio_floor(&state));
}

#[test]
fn disease_kind_keys_are_stable() {
    assert_eq!(DiseaseKind::Illness.key(), "illness");
    assert_eq!(DiseaseKind::Injury.key(), "injury");
}

#[test]
fn determine_selection_falls_back() {
    let (primary, satisfied) = determine_selection(vec![], vec![1, 2, 3], false, 4);
    assert_eq!(primary, vec![1, 2, 3]);
    assert!(!satisfied);
    let (primary_force, satisfied) = determine_selection(vec![], vec![], true, 2);
    assert_eq!(primary_force, vec![0, 1]);
    assert!(!satisfied);
}

#[test]
fn rotation_ready_respects_repeat_window() {
    let mut last_seen = StrMap::new();
    last_seen.insert(String::from("enc"), 10);

    assert!(!rotation_ready(10 + ENCOUNTER_REPEAT_WINDOW_DAYS - 1, &last_seen, "enc"));
    assert!(rotation_ready(10 + ENCOUNTER_REPEAT_WINDOW_DAYS, &last_seen, "enc"));
    assert!(rotation_ready(1, &last_seen, "missing"));
}

#[test]
fn determine_selection_prefers_primary_when_present() {
    let (selection, rotation_satisfied) = determine_selection(vec![1], vec![0], false, 2);
    assert_eq!(selection, vec![1]);
    assert!(!rotation_satisfied);
}

#[test]
fn parse_region_handles_beltway() {
    assert_eq!(parse_region("beltway"), Some(Region::Beltway));
}

#[test]
fn policy_key_resolves() {
    assert_eq!(policy_key_for_mode(Some(PolicyKind::Balanced)), Some("deep_balanced"));
    assert_eq!(policy_key_for_mode(Some(PolicyKind::Aggressive)), Some("deep_aggressive"));
    assert!(policy_key_for_mode(None).is_none());
}

fn entry(message: &str) -> JournalEntry {
    JournalEntry {
        action_kind: "travel".into(),
        day: 1,
        minute: morning(),
        pace: Some(PaceId::Steady),
        diet: Some(DietId::Mixed),
        place: "Seattle".into(),
        title: message.into(),
        message: message.into(),
        before: Stats::default(),
        after: Stats::default(),
        details: Vec::new(),
        resources: Vec::new(),
    }
}

fn messages(entries: &[JournalEntry]) -> Vec<String> {
    entries.iter().map(|e| e.message.clone()).collect()
}

#[test]
fn an_empty_or_out_of_range_turn_has_no_entries() {
    let mut history = Continuity::new();
    assert!(history.turn_entries().is_empty());
    history.journal.push(entry("Latest action"));
    assert_eq!(messages(history.turn_entries()), messages(&history.journal));
    history.turn_journal_start = Some(usize::MAX);
    assert!(history.turn_entries().is_empty());
}

#[test]
fn travel_day_kind_ratio_flag() {
    assert!(TravelDayKind::Travel.counts_toward_ratio());
    assert!(TravelDayKind::Partial.counts_toward_ratio());
    assert!(!TravelDayKind::NonTravel.counts_toward_ratio());
}

#[test]
fn policy_conversion_roundtrip() {
    let classic = PolicyId::Classic;
    let deep = PolicyId::Deep;
    assert_eq!(PolicyKind::from(classic), PolicyKind::Balanced);
    assert_eq!(PolicyKind::from(deep), PolicyKind::Aggressive);
    assert_eq!(PolicyId::from(PolicyKind::Conservative), PolicyId::Classic);
    assert_eq!(PolicyId::from(PolicyKind::ResourceManager), PolicyId::Deep);
}

#[test]
fn rng_phase_contract_matches_expected_streams() {
    assert_eq!(RngPhase::DailyEffects.allowed_streams(), RngStreamMask::single(RngStream::Events));
    assert_eq!(RngPhase::ExecOrders.allowed_streams(), RngStreamMask::single(RngStream::Events));
    assert_eq!(RngPhase::HealthTick.allowed_streams(), RngStreamMask::single(RngStream::Health));
    assert_eq!(RngPhase::WeatherTick.allowed_streams(), RngStreamMask::single(RngStream::Weather));
    assert_eq!(
        RngPhase::VehicleBreakdown.allowed_streams(),
        RngStreamMask::single(RngStream::Breakdown)
    );
    assert_eq!(
        RngPhase::EncounterTick.allowed_streams(),
        RngStreamMask::single(RngStream::Encounter)
    );
    assert_eq!(
        RngPhase::TravelTick.allowed_streams(),
        RngStreamMask::pair(RngStream::Travel, RngStream::Events)
    );
    assert_eq!(RngPhase::CrossingTick.allowed_streams(), RngStreamMask::single(RngStream::Crossing));
    assert_eq!(RngPhase::BossTick.allowed_streams(), RngStreamMask::single(RngStream::Boss));
    assert_eq!(RngPhase::TradeTick.allowed_streams(), RngStreamMask::single(RngStream::Trade));
    assert_eq!(RngPhase::HuntTick.allowed_streams(), RngStreamMask::single(RngStream::Hunt));
}

#[test]
fn day_tags_trim_and_ignore_empty() {
    let tag = DayTag::new("  camp  ");
    assert_eq!(tag.0, "camp");
    assert!(DayTag::new("   ").is_empty());
}

#[test]
fn strategy_conversion_covers_all_variants() {
    assert_eq!(PolicyKind::from(StrategyId::Conservative), PolicyKind::Conservative);
    assert_eq!(PolicyKind::from(StrategyId::ResourceManager), PolicyKind::ResourceManager);
    assert_eq!(StrategyId::from(PolicyKind::Conservative), StrategyId::Conservative);
    assert_eq!(StrategyId::from(PolicyKind::ResourceManager), StrategyId::ResourceManager);
}

#[test]
fn rng_stream_mask_contains_bits() {
    let mask = RngStreamMask::pair(RngStream::Travel, RngStream::Events);
    assert!(mask.contains(RngStream::Travel));
    assert!(!mask.contains(RngStream::Health));
}

#[test]
fn kernel_event_code_mapping_is_stable() {
    assert_eq!(
        KernelEventCode::from(&EventKind::WeatherResolved).as_str(),
        "event.weather.resolved"
    );
    assert_eq!(KernelEventCode::from(&EventKind::TravelBlocked).as_str(), "event.travel.blocked");
}

#[test]
fn kernel_event_code_maps_every_event_kind() {
    let pairs = [
        (EventKind::LegacyLogKey, "event.legacy.log"),
        (EventKind::WeatherResolved, "event.weather.resolved"),
        (EventKind::DailyConsumptionApplied, "event.supplies.daily_consumption_applied"),
        (EventKind::HealthTickApplied, "event.health.tick_applied"),
        (EventKind::GeneralStrainComputed, "event.health.general_strain_computed"),
        (EventKind::ExecOrderStarted, "event.exec_order.started"),
        (EventKind::ExecOrderEnded, "event.exec_order.ended"),
        (EventKind::BreakdownStarted, "event.vehicle.breakdown_started"),
        (EventKind::BreakdownResolved, "event.vehicle.breakdown_resolved"),
        (EventKind::EncounterTriggered, "event.encounter.triggered"),
        (EventKind::RandomEventResolved, "event.random.resolved"),
        (EventKind::TradeResolved, "event.trade.resolved"),
        (EventKind::HuntResolved, "event.hunt.resolved"),
        (EventKind::AfflictionTriggered, "event.affliction.triggered"),
        (EventKind::NavigationEvent, "event.navigation.resolved"),
        (EventKind::CrossingResolved, "event.crossing.resolved"),
        (EventKind::TravelBlocked, "event.travel.blocked"),
    ];
    for (kind, expected) in pairs {
        assert_eq!(KernelEventCode::from(&kind).as_str(), expected);
    }
}

#[test]
fn navigation_bucket_selection_maps_roll_to_event() {
    let options = [
        (OtDeluxeNavigationEvent::LostTrail, 2),
        (OtDeluxeNavigationEvent::WrongTrail, 3),
        (OtDeluxeNavigationEvent::Impassable, 0),
        (OtDeluxeNavigationEvent::Snowbound, 1),
    ];
    assert_eq!(pick_navigation_event(&options, 0), OtDeluxeNavigationEvent::LostTrail);
    assert_eq!(pick_navigation_event(&options, 2), OtDeluxeNavigationEvent::WrongTrail);
    assert_eq!(pick_navigation_event(&options, 5), OtDeluxeNavigationEvent::Snowbound);
}

#[test]
fn navigation_bucket_selection_falls_back_when_all_weights_zero() {
    let options = [
        (OtDeluxeNavigationEvent::LostTrail, 0),
        (OtDeluxeNavigationEvent::WrongTrail, 0),
        (OtDeluxeNavigationEvent::Impassable, 0),
        (OtDeluxeNavigationEvent::Snowbound, 0),
    ];
    assert_eq!(pick_navigation_event(&options, 0), OtDeluxeNavigationEvent::LostTrail);
}

#[test]
fn round_distribution_and_win_rates_match_the_exact_model() {
    // Convolve integer influence values, then weight hearing lengths 1/2/3 by 1/2,1/4,1/4.
    let mut distribution = vec![1_u64];
    let bases = [0.25, 0.55, 0.75, 0.80, 0.88];
    let expected = [0.2541, 0.5548, 0.7472, 0.7875, 0.8421];
    let mut rates = [0.0; 5];
    for count in 1..=3 {
        let mut next = vec![0_u64; distribution.len() + 150];
        for (sum, ways) in distribution.iter().enumerate() {
            for influence in 50..=150 {
                next[sum + influence] += ways;
            }
        }
        distribution = next;
        let weight = if count == 1 { 0.5 } else { 0.25 };
        let total = 101_f64.powi(count);
        for (sum, ways) in distribution.iter().enumerate() {
            for (i, base) in bases.iter().enumerate() {
                let threshold = base * f64::from(u32::try_from(sum).unwrap()) / f64::from(count);
                let passes = (0..100).filter(|roll| f64::from(*roll) < threshold).count();
                rates[i] += weight * f64::from(u32::try_from(*ways).unwrap()) / total
                    * f64::from(u32::try_from(passes).unwrap())
                    / 100.0;
            }
        }
    }
    for (rate, expected) in rates.into_iter().zip(expected) {
        assert!((rate - expected).abs() < 0.0002, "{rate} vs {expected}");
    }
}

#[test]
fn rest_intent_clamps_days_to_parity_range() {
    let mut over_state = IntentState { pending: DayIntent::Rest, rest_days_remaining: 12 };
    over_state.advance_rest();
    assert!(matches!(over_state.pending, DayIntent::Rest));
    assert_eq!(over_state.rest_days_remaining, 8);

    let mut zero_state = IntentState { pending: DayIntent::Rest, rest_days_remaining: 0 };
    zero_state.advance_rest();
    assert!(matches!(zero_state.pending, DayIntent::Continue));
    assert_eq!(zero_state.rest_days_remaining, 0);
}
