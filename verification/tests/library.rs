use dystrail_game::endgame::{field_repair_resource, ResourceKind};
use dystrail_game::journey::phase::{IntentGate, IntentState};
use dystrail_game::kernel::systems::dalles::{sample_drownings_with_rng, select_drowning_indices};
use dystrail_game::kernel::systems::fatality::{otdeluxe_health_label, OtDeluxeHealthLabel};
use dystrail_game::kernel::systems::navigation::{otdeluxe_navigation_delay_for, OtDeluxeNavigationEvent};
use dystrail_game::mechanics::otdeluxe90s::{OtDeluxeHealthLabelRanges, OtDeluxeNavigationDelay, OtDeluxeNavigationDelays};
use dystrail_game::crossings::{apply_bribe, apply_detour, apply_permit, DetourCfg, PermitCfg};
use dystrail_game::kernel::systems::disease::apply_otdeluxe_disease_deltas;
use dystrail_game::kernel::systems::economy::otdeluxe_starting_cash_cents;
use dystrail_game::kernel::systems::health::{otdeluxe_affliction_health_penalty, otdeluxe_clothing_health_penalty};
use dystrail_game::mechanics::otdeluxe90s::OtDeluxeHealthPenalties;
use dystrail_game::mechanics::otdeluxe90s::{OtDeluxeOccupation, OtDeluxeOccupationCash};
use dystrail_game::otdeluxe_state::OtDeluxeInventory;
use dystrail_game::state::Season;
use dystrail_game::activities::{Activity, FORAGE_COOLDOWN_DAYS};
use dystrail_game::boss::hearing::{Draw, HearingOutcome, HearingPhase, HearingReport, HearingRound};
use dystrail_game::camp::{camp_forage, camp_rest, camp_therapy, can_repair, can_therapy, CampConfig, RestConfig};
use dystrail_game::coverage_anchor::coverage_checksum;
use dystrail_game::crossings::{can_use_permit, CrossingKind};
use dystrail_game::data::Effects;
use dystrail_game::day_accounting::{
    adjust_counters_for_transition, apply_initial_counters, enforce_endgame_stop_cap, record_day_kind, DayCapTag,
};
use dystrail_game::disease::{AfflictionDurations, DiseaseCatalog, DiseaseDef, DiseaseKind};
use dystrail_game::exec_orders::ExecOrder;
use dystrail_game::hunt::{resolve_hunt, resolve_hunt_with_draws, resolve_hunt_with_rng, HuntBlockReason, HuntOutcome};
use dystrail_game::journey::outcome::{close_day, event_day, legacy_log_events, resolve_day_close, stats_delta};
use dystrail_game::journey::seeds::{derive_stream_seed, u64_from_le_bytes, u64_to_le_bytes, RngBundle};
use dystrail_game::journey::{CountingRng, DetourPolicy, PartWeightsOverlay, PermitPolicy, TravelDayKind};
use dystrail_game::kernel::systems::affliction::{affliction_kind_with_roll, otdeluxe_affliction_duration};
use dystrail_game::kernel::systems::vehicle::{consume_otdeluxe_spare_for_breakdown, select_breakdown_part_with_roll};
use dystrail_game::mechanics::otdeluxe90s::OtDeluxeAfflictionWeightOverride;
use dystrail_game::otdeluxe_state::{OtDeluxeAfflictionKind, OtDeluxePartyMember};
use dystrail_game::party::{MemberStatus, PartyMember};
use dystrail_game::journey::daily::{apply_health_delta, apply_sanity_delta, apply_supplies_delta, carried_delta};
use dystrail_game::state::{DamageCause, DayIntent, GameState, Region, Stats};
use dystrail_game::vehicle::{Breakdown, Part, PartWeights};
use dystrail_game::journal::morning;
use dystrail_game::weather::Weather;
use rand::rngs::SmallRng;
use rand::RngCore;
use rand::SeedableRng;

fn member(persona: &str) -> PartyMember {
    PartyMember { persona: persona.to_string(), status: MemberStatus::Active }
}

#[test]
fn gathering_and_paid_work_cannot_be_farmed_by_reloading() {
    let mut gs = GameState::default();
    gs.stats.supplies = 5;
    assert!(gs.perform_activity(Activity::Glean));
    assert_eq!(gs.stats.supplies, 9);
    // The activity record lives in the saved account, so a reloaded journey carries it.
    assert_eq!(gs.continuity.activities.foraged_on, Some(1));
    assert!(!gs.perform_activity(Activity::Forage));
    gs.day += 3;
    assert!(gs.perform_activity(Activity::Forage));
    gs.continuity.route_services.stop = Some(160);
    let cash = gs.budget_cents;
    assert!(gs.perform_activity(Activity::WorkCash));
    assert_eq!(gs.budget_cents, cash + 1800);
    assert!(!gs.perform_activity(Activity::WorkSupplies));
    assert!(!gs.perform_activity(Activity::Forage));
}

#[test]
fn work_cash_updates_whole_budget_units() {
    let mut gs = GameState::default();
    gs.budget_cents = 250;
    gs.continuity.route_services.stop = Some(3);
    assert!(gs.perform_activity(Activity::WorkCash));
    assert_eq!(gs.budget_cents, 2050);
    assert_eq!(gs.budget, 20);
    assert_eq!(Activity::WorkCash.minutes(), 180);
    assert_eq!(Activity::Glean.key(), "trail.glean");
}

fn camp_cfg() -> CampConfig {
    CampConfig {
        rest: RestConfig { sanity: 1, hp: 1, supplies: 0, day: 1, cooldown_days: 1, recovery_day: false },
        enabled: true,
    }
}

#[test]
fn camp_and_roadside_forage_share_costs_and_cooldown() {
    let mut camp = GameState::default();
    camp.stats.supplies = 5;
    camp.stats.sanity = 5;
    let mut roadside = GameState::default();
    roadside.stats.supplies = 5;
    roadside.stats.sanity = 5;
    let cfg = camp_cfg();

    let outcome = camp_forage(&mut camp, &cfg);
    assert_eq!(outcome.supplies_delta, 2);
    assert!(roadside.perform_activity(Activity::Forage));
    assert_eq!(camp.stats, roadside.stats);
    assert_eq!(camp.stats.supplies, 7);
    assert_eq!(camp.stats.sanity, 6);
    assert_eq!(camp.day, 1);
    assert_eq!(camp.continuity.clock_minutes, morning() + 120);
    assert_eq!(camp.continuity.clock_minutes, roadside.continuity.clock_minutes);
    assert_eq!(camp.forage_cooldown_days(), FORAGE_COOLDOWN_DAYS);
    assert_eq!(camp.continuity.driving_minutes_total, 0);

    let stats = camp.stats;
    let clock = camp.continuity.clock_minutes;
    let logs = camp.logs.len();
    assert!(!camp.perform_activity(Activity::Glean));
    let again = camp_forage(&mut camp, &cfg);
    assert_eq!(again.supplies_delta, 0);
    assert_eq!(again.message, "log.camp.forage.cooldown");
    assert_eq!(camp.stats, stats);
    assert_eq!(camp.continuity.clock_minutes, clock);
    assert_eq!(camp.logs.len(), logs);
    assert_eq!(camp.day, 1);
    camp.day += FORAGE_COOLDOWN_DAYS - 1;
    assert!(!camp.can_activity(Activity::Forage));
    camp.day += 1;
    assert!(camp.can_activity(Activity::Glean));
}

#[test]
fn camp_actions_without_effects_only_report() {
    let mut gs = GameState::default();
    let cfg = camp_cfg();
    assert_eq!(camp_therapy(&mut gs, &cfg).message, "log.camp.therapy");
    assert!(can_therapy(&gs, &cfg));
    assert!(!can_repair(&gs, &cfg));
    gs.breakdown = Some(dystrail_game::vehicle::Breakdown { part: Part::Battery, day_started: 1 });
    assert!(can_repair(&gs, &cfg));
    let out = camp_forage(&mut gs, &cfg);
    assert_eq!(out.message, "log.camp.forage.disabled");
    assert_eq!(out.supplies_delta, 0);
}

#[test]
fn natural_check_care_deferral_and_absence_are_persistent() {
    let mut gs = GameState::default();
    gs.persona_id = Some("journalist".into());
    gs.party.members = vec![member("journalist"), member("organizer"), member("satirist")];
    gs.day = 5;
    gs.check_crew(4);
    let actor = gs.continuity.crew_care.pending.clone().unwrap();
    assert!(gs.resolve_crew_care(2).is_some());
    gs.day = 10;
    gs.check_crew(9);
    assert_eq!(gs.continuity.crew_care.pending.as_deref(), Some(actor.as_str()));
    let before = gs.stats.supplies;
    assert_eq!(gs.resolve_crew_care(0), Some("journey.care_helped"));
    assert_eq!(gs.stats.supplies, before - 2);
    assert!(gs.continuity.crew_care.strain.is_empty());
    gs.continuity.crew_care.pending = Some("organizer".into());
    assert!(gs.resolve_crew_care(1).is_some());
    assert!(!gs.party.members.iter().any(|m| m.persona == "organizer" && m.status == MemberStatus::Active));
    gs.continuity.crew_care.pending = Some("satirist".into());
    gs.continuity.crew_care.strain.insert("satirist".into(), 3);
    assert_eq!(gs.resolve_crew_care(2), Some("journey.care_lost"));
    assert!(!gs.party.members.iter().any(|m| m.persona == "satirist" && m.status == MemberStatus::Active));
}

#[test]
fn crew_check_uses_seed_rotation_and_caps_strain() {
    let mut gs = GameState::default();
    gs.party.members = vec![member("a"), member("b"), member("c")];
    gs.seed = 1;
    gs.day = 5;
    gs.check_crew(4);
    // (5 / 5 + 1) % 3 == 2
    assert_eq!(gs.continuity.crew_care.pending.as_deref(), Some("c"));
    assert_eq!(gs.continuity.crew_care.strain.get("c"), Some(1));
    assert_eq!(gs.continuity.crew_care.reason, 2);
    assert_eq!(gs.continuity.crew_care.last_check_day, 5);
    for day in [10, 15, 20] {
        gs.continuity.crew_care.pending = None;
        gs.day = day;
        gs.check_crew(day - 1);
    }
    assert_eq!(gs.continuity.crew_care.strain.get("c"), Some(3));
    gs.recover_crew();
    assert!(gs.continuity.crew_care.strain.is_empty());
    assert!(gs.continuity.crew_care.pending.is_none());
}

#[test]
fn crew_check_waits_for_its_interval() {
    let mut gs = GameState::default();
    gs.party.members = vec![member("a")];
    gs.day = 4;
    gs.check_crew(3);
    assert!(gs.continuity.crew_care.pending.is_none());
    gs.day = 5;
    gs.check_crew(5);
    assert!(gs.continuity.crew_care.pending.is_none());
    assert_eq!(gs.resolve_crew_care(0), None);
}

fn hunting_state() -> GameState {
    let mut gs = GameState::default();
    gs.ot_deluxe.inventory.bullets = 10;
    gs.ot_deluxe.members = vec![OtDeluxePartyMember { name: "Ann".into(), alive: true }];
    gs
}

#[test]
fn hunting_spends_bullets_and_caps_food_by_carry_capacity() {
    let mut gs = hunting_state();
    assert_eq!(
        resolve_hunt_with_draws(&mut gs, 4, 5),
        HuntOutcome::Success { bullets_spent: 4, food_gained_lbs: 20 }
    );
    assert_eq!(gs.ot_deluxe.inventory.bullets, 6);
    assert_eq!(gs.ot_deluxe.inventory.food_lbs, 20);
    let mut poor = hunting_state();
    poor.ot_deluxe.members.clear();
    assert_eq!(
        resolve_hunt(&mut poor),
        HuntOutcome::Success { bullets_spent: 1, food_gained_lbs: 0 }
    );
}

#[test]
fn hunting_is_blocked_in_order() {
    let mut gs = hunting_state();
    gs.ot_deluxe.inventory.bullets = 0;
    gs.weather_state.today = Weather::Storm;
    assert_eq!(resolve_hunt(&mut gs), HuntOutcome::Blocked(HuntBlockReason::NoBullets));
    let mut gs = hunting_state();
    gs.weather_state.today = Weather::Smoke;
    gs.region = Region::Beltway;
    assert_eq!(resolve_hunt(&mut gs), HuntOutcome::Blocked(HuntBlockReason::SevereWeather));
    let mut gs = hunting_state();
    gs.region = Region::Beltway;
    assert_eq!(resolve_hunt(&mut gs), HuntOutcome::Blocked(HuntBlockReason::CrowdedLocation));
    assert_eq!(gs.ot_deluxe.inventory.bullets, 10);
}

#[test]
fn random_hunt_stays_within_its_ranges() {
    let mut gs = hunting_state();
    let mut rng = SmallRng::seed_from_u64(3);
    match resolve_hunt_with_rng(&mut gs, &mut rng) {
        HuntOutcome::Success { bullets_spent, food_gained_lbs } => {
            assert!((1..=10).contains(&bullets_spent));
            assert!(food_gained_lbs <= 100 && food_gained_lbs >= 2 * bullets_spent.min(50));
            assert_eq!(gs.ot_deluxe.inventory.bullets, 10 - bullets_spent);
        }
        HuntOutcome::Blocked(_) => panic!("hunt should not be blocked"),
    }
}

#[test]
fn base_evidence_is_guaranteed_and_bonus_is_bounded() {
    for (modifier, expected) in [(-100, 1), (100, 2)] {
        let mut state = GameState::default();
        state.rng_bundle = Some(RngBundle::from_user_seed(42));
        state.mods.receipt_find_pct = modifier;
        state.collect_receipt("public-record");
        assert_eq!(state.receipts.len(), expected);
    }
    let mut state = GameState::default();
    state.mods.receipt_find_pct = 100;
    state.collect_receipt("ticket");
    assert_eq!(state.receipts, vec![String::from("ticket")]);
    state.rng_bundle = Some(RngBundle::from_user_seed(1));
    state.collect_receipt("ticket");
    assert_eq!(state.receipts[2], "ticket:supporting-record");
}

#[test]
fn receipt_bonus_chance_clamps() {
    let mut state = GameState::default();
    assert_eq!(state.receipt_bonus_chance(), 10);
    state.mods.receipt_find_pct = 95;
    assert_eq!(state.receipt_bonus_chance(), 100);
    state.receipt_bonus_pct = -200;
    assert_eq!(state.receipt_bonus_chance(), 0);
}

fn disease(id: &str, kind: DiseaseKind, weight: u16) -> DiseaseDef {
    DiseaseDef {
        id: id.to_string(),
        kind,
        display_key: format!("disease.{id}"),
        weight,
        duration_days: None,
        tags: Vec::new(),
    }
}

#[test]
fn pick_by_kind_with_uniform_fallback_emits_trace() {
    let catalog = DiseaseCatalog {
        diseases: vec![
            disease("flu", DiseaseKind::Illness, 0),
            disease("sprain", DiseaseKind::Injury, 3),
            disease("cold", DiseaseKind::Illness, 0),
        ],
    };
    let (picked, trace) = catalog.pick_by_kind_with_roll(DiseaseKind::Illness, 1);
    assert_eq!(picked, Some(2));
    let trace = trace.expect("trace");
    assert_eq!(trace.pool_id, "otdeluxe.affliction_disease.illness");
    assert_eq!(trace.candidates.len(), 2);
    assert!(trace.uniform_fallback);
    assert_eq!(trace.chosen_id, "cold");
    let mut rng = SmallRng::seed_from_u64(5);
    let (picked, trace) = catalog.pick_by_kind_with_trace(DiseaseKind::Illness, &mut rng);
    assert!(matches!(picked, Some(0) | Some(2)));
    assert!(trace.is_some());
}

#[test]
fn pick_by_kind_returns_none_when_kind_missing() {
    let catalog = DiseaseCatalog { diseases: vec![disease("flu", DiseaseKind::Illness, 2)] };
    let mut rng = SmallRng::seed_from_u64(1);
    assert!(catalog.pick_by_kind(DiseaseKind::Injury, &mut rng).is_none());
}

#[test]
fn pick_by_kind_selects_weighted_candidate() {
    let catalog = DiseaseCatalog {
        diseases: vec![
            disease("zero", DiseaseKind::Illness, 0),
            disease("weighted", DiseaseKind::Illness, 5),
            disease("other", DiseaseKind::Illness, 2),
        ],
    };
    let (picked, _) = catalog.pick_by_kind_with_roll(DiseaseKind::Illness, 4);
    assert_eq!(catalog.diseases[picked.unwrap()].id, "weighted");
    let (picked, _) = catalog.pick_by_kind_with_roll(DiseaseKind::Illness, 5);
    assert_eq!(catalog.diseases[picked.unwrap()].id, "other");
    let mut rng = SmallRng::seed_from_u64(9);
    let picked = catalog.pick_by_kind(DiseaseKind::Illness, &mut rng).unwrap();
    assert_ne!(catalog.diseases[picked].id, "zero");
    assert_eq!(catalog.find_by_id("other"), Some(2));
}

#[test]
fn duration_uses_policy_fallbacks() {
    let durations = AfflictionDurations { illness_duration_days: 0, injury_duration_days: 5 };
    let mut flu = disease("flu", DiseaseKind::Illness, 1);
    assert_eq!(flu.duration_for(&durations), 1);
    flu.duration_days = Some(4);
    assert_eq!(flu.duration_for(&durations), 4);
    assert_eq!(disease("sprain", DiseaseKind::Injury, 1).duration_for(&durations), 5);
    assert_eq!(otdeluxe_affliction_duration(OtDeluxeAfflictionKind::Illness, &durations), 1);
}

#[test]
fn stream_seeds_are_hmac_sha256_of_the_domain() {
    assert_eq!(derive_stream_seed(7, "weather".as_bytes()), 14801963854551640232);
    assert_eq!(derive_stream_seed(42, "events".as_bytes()), 9808782378903392125);
    assert_ne!(derive_stream_seed(7, "weather".as_bytes()), derive_stream_seed(7, "health".as_bytes()));
}

#[test]
fn little_endian_bytes_round_trip() {
    let bytes = u64_to_le_bytes(0x0102_0304_0506_0708);
    assert_eq!(bytes, vec![8, 7, 6, 5, 4, 3, 2, 1]);
    assert_eq!(u64_from_le_bytes(&bytes), 0x0102_0304_0506_0708);
}

#[test]
fn counting_rng_counts_draws() {
    let mut rng = CountingRng::new(3);
    assert_eq!(rng.draws(), 0);
    let _ = rng.next_u32();
    let _ = rng.next_u64();
    assert_eq!(rng.draws(), 2);
    let mut a = CountingRng::new(9);
    let mut b = CountingRng::new(9);
    assert_eq!(a.next_u64(), b.next_u64());
}

#[test]
fn checksum_matches_reference_value() {
    assert_eq!(coverage_checksum(0x1234_5678), 101141338137563);
}

#[test]
fn permits_come_from_tags_or_receipts() {
    let mut gs = GameState::default();
    assert!(!can_use_permit(&gs, &CrossingKind::Checkpoint));
    gs.receipts.push(String::from("city:press_pass:2024"));
    assert!(can_use_permit(&gs, &CrossingKind::BridgeOut));
    let mut gs = GameState::default();
    gs.inventory.tags.push(String::from("permit"));
    assert!(can_use_permit(&gs, &CrossingKind::Checkpoint));
}

#[test]
fn mandatory_costs_must_be_affordable() {
    let stats = Stats::default();
    let effects = Effects {
        cash_cents: -500,
        hp: 0,
        sanity: 0,
        credibility: 0,
        supplies: -2,
        morale: 0,
        allies: 0,
        add_receipt: None,
        use_receipt: false,
        log: None,
        rest: false,
    };
    assert!(!effects.affordable(&stats, 400, 0));
    assert!(effects.affordable(&stats, 500, 0));
    let receipt = Effects { use_receipt: true, cash_cents: 0, supplies: 0, ..effects };
    assert!(!receipt.affordable(&stats, 0, 0));
    assert!(receipt.affordable(&stats, 0, 1));
}

#[test]
fn exec_order_keys_and_daily_effects() {
    assert_eq!(ExecOrder::TariffTsunami.name_key(), "eo.tariff_tsunami");
    assert_eq!(ExecOrder::WarDeptReorg.key(), "war_dept_reorg");
    let panic = ExecOrder::BookPanic.daily_effect(6, false);
    assert_eq!(panic.sanity, -1);
    assert_eq!(ExecOrder::BookPanic.daily_effect(7, false).sanity, 0);
    assert_eq!(ExecOrder::TariffTsunami.daily_effect(5, true).supplies, 0);
    assert!(ExecOrder::TravelBanLite.daily_effect(5, false).slows_travel);
}

#[test]
fn endgame_stop_cap_counts_recent_stops() {
    let mut gs = GameState::default();
    assert!(!enforce_endgame_stop_cap(&gs));
    gs.endgame.active = true;
    gs.endgame.stop_cap_window = 2;
    gs.endgame.stop_cap_max_full = 1;
    gs.recent_travel_days = vec![TravelDayKind::NonTravel, TravelDayKind::Travel, TravelDayKind::Travel].into();
    assert!(!enforce_endgame_stop_cap(&gs));
    gs.recent_travel_days.push_back(TravelDayKind::NonTravel);
    assert!(enforce_endgame_stop_cap(&gs));
}

#[test]
fn rotation_counter_follows_day_kind_changes() {
    let mut gs = GameState::default();
    apply_initial_counters(&mut gs, TravelDayKind::Partial);
    assert_eq!(gs.rotation_travel_days, 1);
    adjust_counters_for_transition(&mut gs, TravelDayKind::Partial, TravelDayKind::NonTravel);
    assert_eq!(gs.rotation_travel_days, 0);
    adjust_counters_for_transition(&mut gs, TravelDayKind::Travel, TravelDayKind::NonTravel);
    assert_eq!(gs.rotation_travel_days, 0);
    adjust_counters_for_transition(&mut gs, TravelDayKind::NonTravel, TravelDayKind::Travel);
    assert_eq!(gs.rotation_travel_days, 1);
}

#[test]
fn day_close_reports_each_log_key_once() {
    let existing = vec![String::from("log.weather")];
    let logs = vec![
        String::from("old"),
        String::from("log.traveled"),
        String::from("log.weather"),
        String::from("log.camp"),
        String::from("log.camp"),
    ];
    let batch = legacy_log_events(&existing, "log.traveled", &logs, 1, 7, 3);
    let keys: Vec<&str> = batch.events.iter().map(|e| e.ui_key.as_str()).collect();
    assert_eq!(keys, vec!["log.traveled", "log.camp"]);
    assert_eq!(batch.events[0].id.seq, 3);
    assert_eq!(batch.events[1].id.seq, 4);
    assert_eq!(batch.events[1].day, 7);
    assert_eq!(batch.next_seq, 5);
    assert_eq!(batch.log_cursor, 5);
    let repeat = legacy_log_events(&existing, "log.weather", &logs, 9, 7, 0);
    assert!(repeat.events.is_empty());
    assert_eq!(event_day(1, true), 0);
    assert_eq!(event_day(4, false), 4);
}

#[test]
fn stats_delta_subtracts_each_stat() {
    let before = Stats::default();
    let mut after = before;
    after.supplies -= 3;
    after.morale += 2;
    let d = stats_delta(&before, &after);
    assert_eq!(d.supplies, -3);
    assert_eq!(d.morale, 2);
    assert_eq!(d.hp, 0);
}

#[test]
fn hearing_phases_advance_and_reveal_rounds() {
    let round = |after: i32, cont: Option<u8>| HearingRound { influence: 100, sanity_before: 5, sanity_after: after, continuation_roll: cont };
    let report = HearingReport {
        rules_version: 1,
        starting_stats: Stats::default(),
        day: 12,
        minute: 660,
        policy_guarantee: false,
        rounds: vec![round(3, Some(10)), round(1, None)],
        vote_roll: None,
        outcome: HearingOutcome::Passed,
    };
    assert_eq!(report.next_phase(HearingPhase::RoundRolling(0)), HearingPhase::RoundResult(0));
    assert_eq!(report.next_phase(HearingPhase::RoundResult(0)), HearingPhase::Committee(0));
    assert_eq!(report.next_phase(HearingPhase::CommitteeResult(0)), HearingPhase::RoundRolling(1));
    assert_eq!(report.next_phase(HearingPhase::RoundResult(1)), HearingPhase::Closed);
    assert_eq!(report.next_phase(HearingPhase::Closed), HearingPhase::VoteRolling);
    assert_eq!(report.next_phase(HearingPhase::Complete), HearingPhase::Complete);
    assert_eq!(report.revealed_rounds(HearingPhase::RoundResult(0)), 1);
    assert_eq!(report.revealed_rounds(HearingPhase::Verdict), 2);
    assert_eq!(report.revealed_rounds(HearingPhase::Committee(9)), 2);
    let exhausted = HearingReport { rounds: vec![round(0, None)], outcome: HearingOutcome::Exhausted, ..report };
    assert_eq!(exhausted.next_phase(HearingPhase::RoundRolling(0)), HearingPhase::Verdict);
    assert_eq!(Draw::Influence.bound(), 101);
    assert_eq!(Draw::Vote.bound(), 100);
}

#[test]
fn overlays_and_policies_sanitize() {
    let weights = PartWeights { tire: 4, battery: 3, alt: 2, pump: 1 };
    let over = weights.with_overlay(&PartWeightsOverlay { tire: None, battery: Some(9), alt: None, pump: Some(0) });
    assert_eq!(over, PartWeights { tire: 4, battery: 9, alt: 2, pump: 0 });
    let mut detour = DetourPolicy { min: 0, max: 0 };
    detour.sanitize();
    assert_eq!(detour, DetourPolicy { min: 1, max: 1 });
    let mut permits = PermitPolicy {
        disable_terminal: true,
        eligible: vec!["press_pass".into(), "bridge".into(), "press_pass".into(), "Permit".into()],
    };
    permits.sanitize();
    assert_eq!(permits.eligible, vec!["Permit", "bridge", "press_pass"]);
    let mut base = OtDeluxeAfflictionWeightOverride { illness: Some(1), injury: None };
    base.merge_from(&OtDeluxeAfflictionWeightOverride { illness: None, injury: Some(4) });
    assert_eq!(base, OtDeluxeAfflictionWeightOverride { illness: Some(1), injury: Some(4) });
}

#[test]
fn affliction_and_breakdown_rolls_map_to_buckets() {
    let (kind, trace) = affliction_kind_with_roll(2, 3, 1);
    assert_eq!(kind, OtDeluxeAfflictionKind::Illness);
    assert_eq!(trace.chosen_id, "illness");
    let (kind, _) = affliction_kind_with_roll(2, 3, 2);
    assert_eq!(kind, OtDeluxeAfflictionKind::Injury);
    let weights = PartWeights { tire: 1, battery: 0, alt: 2, pump: 1 };
    assert_eq!(select_breakdown_part_with_roll(&weights, 0), Part::Tire);
    assert_eq!(select_breakdown_part_with_roll(&weights, 2), Part::Alternator);
    assert_eq!(select_breakdown_part_with_roll(&weights, 3), Part::FuelPump);
    let mut inv = GameState::default().ot_deluxe.inventory;
    inv.spares_axles = 1;
    assert!(consume_otdeluxe_spare_for_breakdown(&mut inv, Part::Battery));
    assert_eq!(inv.spares_axles, 0);
    assert!(!consume_otdeluxe_spare_for_breakdown(&mut inv, Part::Battery));
}

#[test]
fn recording_a_day_moves_the_rotation_counter_with_its_kind() {
    let mut gs = GameState::default();
    assert_eq!(record_day_kind(&mut gs, TravelDayKind::NonTravel), (TravelDayKind::NonTravel, None));
    assert_eq!(gs.rotation_travel_days, 0);
    assert_eq!(gs.current_day_kind, Some(TravelDayKind::NonTravel));
    assert!(!gs.traveled_today && !gs.partial_traveled_today);
    assert_eq!(record_day_kind(&mut gs, TravelDayKind::Partial), (TravelDayKind::Partial, None));
    assert_eq!(gs.rotation_travel_days, 1);
    assert!(gs.partial_traveled_today && !gs.traveled_today);
    assert_eq!(record_day_kind(&mut gs, TravelDayKind::Travel), (TravelDayKind::Travel, None));
    assert_eq!(gs.rotation_travel_days, 2);
    assert!(gs.traveled_today && !gs.partial_traveled_today);
    assert_eq!(record_day_kind(&mut gs, TravelDayKind::Travel), (TravelDayKind::Travel, None));
    assert_eq!(gs.rotation_travel_days, 2);
}

#[test]
fn stop_caps_turn_a_requested_stop_into_a_partial_day() {
    let mut gs = GameState::default();
    gs.recent_travel_days = vec![TravelDayKind::NonTravel; 10].into();
    let (kind, tag) = record_day_kind(&mut gs, TravelDayKind::NonTravel);
    assert_eq!(kind, TravelDayKind::Partial);
    assert_eq!(tag, Some(DayCapTag::StopCap));
    assert_eq!(tag.unwrap().as_str(), "stop_cap");
    assert_eq!(gs.rotation_travel_days, 1);

    let mut gs = GameState::default();
    gs.recent_travel_days = vec![TravelDayKind::NonTravel; 10].into();
    gs.suppress_stop_ratio = true;
    assert_eq!(record_day_kind(&mut gs, TravelDayKind::NonTravel), (TravelDayKind::NonTravel, None));
    gs.current_day_kind = None;
    gs.endgame.active = true;
    gs.endgame.stop_cap_max_full = 0;
    let (kind, tag) = record_day_kind(&mut gs, TravelDayKind::NonTravel);
    assert_eq!(kind, TravelDayKind::Partial);
    assert_eq!(tag.map(|t| t.as_str()), Some("auto_cap"));
}

#[test]
fn daily_health_loss_blames_attrition_only_when_hp_drops() {
    let mut gs = GameState::default();
    gs.last_damage = Some(DamageCause::ExposureCold);
    apply_health_delta(&mut gs, 2);
    assert_eq!(gs.stats.hp, 10);
    assert_eq!(gs.last_damage, Some(DamageCause::ExposureCold));
    apply_health_delta(&mut gs, -3);
    assert_eq!(gs.stats.hp, 7);
    assert_eq!(gs.last_damage, Some(DamageCause::Breakdown));
    gs.stats.hp = 0;
    gs.last_damage = Some(DamageCause::Vehicle);
    apply_health_delta(&mut gs, -1);
    assert_eq!(gs.stats.hp, 0);
    assert_eq!(gs.last_damage, Some(DamageCause::Vehicle));
}

#[test]
fn fractional_daily_costs_accumulate_into_whole_points() {
    let mut gs = GameState::default();
    gs.stats.supplies = 20;
    let (mut supplies_rem, mut sanity_rem, mut health_rem) = (0i32, 0i32, 0i32);
    for _ in 0..50 {
        let s = carried_delta(-240_000, &mut supplies_rem);
        let m = carried_delta(-40_000, &mut sanity_rem);
        let h = carried_delta(-120_000, &mut health_rem);
        apply_supplies_delta(&mut gs, s);
        apply_sanity_delta(&mut gs, m);
        apply_health_delta(&mut gs, h);
    }
    assert_eq!(gs.stats.supplies, 8);
    assert_eq!(gs.stats.sanity, 8);
    assert_eq!(gs.stats.hp, 4);
    assert_eq!(gs.last_damage, Some(DamageCause::Breakdown));
}

#[test]
fn supporting_record_follows_the_roll_against_the_bonus_chance() {
    let mut gs = GameState::default();
    assert_eq!(gs.receipt_bonus_chance(), 10);
    gs.collect_receipt_with_roll("public-record", Some(9));
    assert_eq!(gs.receipts, vec!["public-record".to_string(), "public-record:supporting-record".to_string()]);
    let mut gs = GameState::default();
    gs.collect_receipt_with_roll("public-record", Some(10));
    assert_eq!(gs.receipts, vec!["public-record".to_string()]);
    let mut gs = GameState::default();
    gs.collect_receipt_with_roll("public-record", None);
    assert_eq!(gs.receipts, vec!["public-record".to_string()]);
}

#[test]
fn rng_bundle_uses_domain_hmac() {
    let seed = 0xFEED_CAFE_u64;
    let mut bundle = RngBundle::from_user_seed(seed);

    let mut expected_weather = SmallRng::seed_from_u64(derive_stream_seed(seed, b"weather"));
    assert_eq!(bundle.weather.next_u32(), expected_weather.next_u32());
    assert_eq!(bundle.weather.draws(), 1);

    let mut expected_health = SmallRng::seed_from_u64(derive_stream_seed(seed, b"health"));
    assert_eq!(bundle.health.next_u32(), expected_health.next_u32());
    assert_eq!(bundle.health.draws(), 1);

    let mut expected_travel = SmallRng::seed_from_u64(derive_stream_seed(seed, b"travel"));
    assert_eq!(bundle.travel.next_u32(), expected_travel.next_u32());
    assert_eq!(bundle.travel.draws(), 1);

    let mut expected_events = SmallRng::seed_from_u64(derive_stream_seed(seed, b"events"));
    assert_eq!(bundle.events.next_u32(), expected_events.next_u32());
    assert_eq!(bundle.events.draws(), 1);

    let mut expected_breakdown = SmallRng::seed_from_u64(derive_stream_seed(seed, b"breakdown"));
    assert_eq!(bundle.breakdown.next_u64(), expected_breakdown.next_u64());

    let mut expected_trade = SmallRng::seed_from_u64(derive_stream_seed(seed, b"trade"));
    assert_eq!(bundle.trade.next_u32(), expected_trade.next_u32());
    assert_eq!(bundle.trade.draws(), 1);

    let mut expected_boss = SmallRng::seed_from_u64(derive_stream_seed(seed, b"boss"));
    assert_eq!(bundle.boss.next_u32(), expected_boss.next_u32());
    assert_eq!(bundle.boss.draws(), 1);

    let mut expected_hunt = SmallRng::seed_from_u64(derive_stream_seed(seed, b"hunt"));
    assert_eq!(bundle.hunt.next_u32(), expected_hunt.next_u32());
    assert_eq!(bundle.hunt.draws(), 1);

    assert_ne!(
        derive_stream_seed(seed, b"travel"),
        derive_stream_seed(seed, b"crossing"),
        "domain tags must derive distinct seeds"
    );
}

#[test]
fn starting_cash_reads_the_first_listed_occupation() {
    let table = [
        OtDeluxeOccupationCash { occupation: OtDeluxeOccupation::Banker, starting_cash_dollars: 1600 },
        OtDeluxeOccupationCash { occupation: OtDeluxeOccupation::Teacher, starting_cash_dollars: 400 },
        OtDeluxeOccupationCash { occupation: OtDeluxeOccupation::Banker, starting_cash_dollars: 9 },
    ];
    assert_eq!(otdeluxe_starting_cash_cents(OtDeluxeOccupation::Banker, &table), 160_000);
    assert_eq!(otdeluxe_starting_cash_cents(OtDeluxeOccupation::Teacher, &table), 40_000);
    assert_eq!(otdeluxe_starting_cash_cents(OtDeluxeOccupation::Farmer, &table), 0);
    assert_eq!(otdeluxe_starting_cash_cents(OtDeluxeOccupation::Farmer, &[]), 0);
}

#[test]
fn winter_clothing_and_affliction_penalties() {
    let policy = OtDeluxeHealthPenalties {
        clothing_sets_per_person: 2,
        clothing_penalty_winter: 7,
        affliction_illness_penalty: 3,
        affliction_injury_penalty: 5,
    };
    let mut inventory = OtDeluxeInventory {
        food_lbs: 0,
        bullets: 0,
        clothes_sets: 5,
        spares_wheels: 0,
        spares_axles: 0,
        spares_tongues: 0,
    };
    assert_eq!(otdeluxe_clothing_health_penalty(Season::Winter, &inventory, 3, &policy), 7);
    assert_eq!(otdeluxe_clothing_health_penalty(Season::Summer, &inventory, 3, &policy), 0);
    inventory.clothes_sets = 6;
    assert_eq!(otdeluxe_clothing_health_penalty(Season::Winter, &inventory, 3, &policy), 0);
    let off = OtDeluxeHealthPenalties { clothing_penalty_winter: 0, ..policy };
    inventory.clothes_sets = 0;
    assert_eq!(otdeluxe_clothing_health_penalty(Season::Winter, &inventory, 3, &off), 0);

    assert_eq!(otdeluxe_affliction_health_penalty(2, 1, &policy), 11);
    let harsh = OtDeluxeHealthPenalties {
        affliction_illness_penalty: i32::MAX,
        affliction_injury_penalty: i32::MAX,
        ..policy
    };
    assert_eq!(otdeluxe_affliction_health_penalty(u16::MAX, u16::MAX, &harsh), i32::MAX);
    let lenient = OtDeluxeHealthPenalties { affliction_illness_penalty: i32::MIN, ..policy };
    assert_eq!(otdeluxe_affliction_health_penalty(2, 0, &lenient), i32::MIN);
}

#[test]
fn disease_deltas_floor_at_zero_and_cap_at_the_counter_range() {
    let mut health = 10u16;
    let mut inventory = OtDeluxeInventory {
        food_lbs: 65_530,
        bullets: 4,
        clothes_sets: 1,
        spares_wheels: 0,
        spares_axles: 0,
        spares_tongues: 0,
    };
    apply_otdeluxe_disease_deltas(&mut health, &mut inventory, -15, 10);
    assert_eq!(health, 0);
    assert_eq!(inventory.food_lbs, u16::MAX);
    assert_eq!(inventory.bullets, 4);
    apply_otdeluxe_disease_deltas(&mut health, &mut inventory, 7, -35);
    assert_eq!(health, 7);
    assert_eq!(inventory.food_lbs, 65_500);
    apply_otdeluxe_disease_deltas(&mut health, &mut inventory, 0, 0);
    assert_eq!((health, inventory.food_lbs), (7, 65_500));
}

#[test]
fn crossing_options_apply_their_costs() {
    let mut gs = GameState::default();
    let detour = DetourCfg { days: 2, supplies: -2, pants: 1 };
    assert_eq!(apply_detour(&mut gs, &detour), "crossing.result.detour.success");
    assert_eq!(gs.stats.supplies, 8);
    assert_eq!(gs.stats.pants, 1);
    assert_eq!(apply_permit(&mut gs, &PermitCfg { cred_gain: 1 }), "crossing.result.permit.success");
    assert_eq!(gs.stats.credibility, 6);

    gs.budget_cents = 1_250;
    gs.budget = 12;
    assert_eq!(apply_bribe(&mut gs, 1_000), "crossing.result.bribe.success");
    assert_eq!(gs.budget_cents, 250);
    assert_eq!(gs.budget, 2);
    assert_eq!(gs.bribes_spent_cents, 1_000);
    assert_eq!(apply_bribe(&mut gs, 1_500), "crossing.result.bribe.fail");
    assert_eq!(gs.budget_cents, 250);
    assert_eq!(gs.bribes_spent_cents, 1_000);
}

#[test]
fn health_labels_follow_the_policy_ranges() {
    let ranges = OtDeluxeHealthLabelRanges { good_max: 34, fair_max: 78, poor_max: 104, very_poor_max: 139 };
    assert_eq!(otdeluxe_health_label(0, &ranges), OtDeluxeHealthLabel::Good);
    assert_eq!(otdeluxe_health_label(34, &ranges), OtDeluxeHealthLabel::Good);
    assert_eq!(otdeluxe_health_label(35, &ranges), OtDeluxeHealthLabel::Fair);
    assert_eq!(otdeluxe_health_label(104, &ranges), OtDeluxeHealthLabel::Poor);
    assert_eq!(otdeluxe_health_label(105, &ranges), OtDeluxeHealthLabel::VeryPoor);
}

#[test]
fn navigation_delay_is_read_per_mishap() {
    let delays = OtDeluxeNavigationDelays {
        lost_delay: OtDeluxeNavigationDelay { min_days: 1, max_days: 2 },
        wrong_delay: OtDeluxeNavigationDelay { min_days: 2, max_days: 3 },
        impassable_delay: OtDeluxeNavigationDelay { min_days: 3, max_days: 4 },
        snowbound_delay: OtDeluxeNavigationDelay { min_days: 4, max_days: 5 },
    };
    assert_eq!(otdeluxe_navigation_delay_for(OtDeluxeNavigationEvent::LostTrail, &delays).min_days, 1);
    assert_eq!(otdeluxe_navigation_delay_for(OtDeluxeNavigationEvent::WrongTrail, &delays).min_days, 2);
    assert_eq!(otdeluxe_navigation_delay_for(OtDeluxeNavigationEvent::Impassable, &delays).min_days, 3);
    assert_eq!(otdeluxe_navigation_delay_for(OtDeluxeNavigationEvent::Snowbound, &delays).max_days, 5);
}

#[test]
fn drownings_take_distinct_living_members() {
    let alive = [0usize, 2, 3, 5];
    for seed in 0..20u64 {
        let mut rng = SmallRng::seed_from_u64(seed);
        let drowned = select_drowning_indices(&mut rng, &alive, 2);
        assert_eq!(drowned.len(), 2);
        assert!(drowned.iter().all(|i| alive.contains(i)));
        assert_ne!(drowned[0], drowned[1]);
        let all = select_drowning_indices(&mut rng, &alive, 9);
        let mut sorted = all.clone();
        sorted.sort();
        assert_eq!(sorted, alive.to_vec());
        assert!(select_drowning_indices(&mut rng, &alive, 0).is_empty());
        assert!(select_drowning_indices(&mut rng, &[], 3).is_empty());
        let sample = sample_drownings_with_rng(3, 1, &alive, &mut rng);
        assert!((1..=3).contains(&sample.len()));
        assert!(sample_drownings_with_rng(0, 0, &alive, &mut rng).is_empty());
    }
}

#[test]
fn an_after_hours_repair_uses_all_four_hours_of_the_next_active_day() {
    let mut before = GameState::default();
    before.continuity.clock_minutes = 23 * 60;
    let mut after = GameState::default();
    after.continuity.clock_minutes = 23 * 60;
    after.advance_clock(&before, 240);
    assert_eq!(after.day, before.day + 1);
    assert_eq!(after.continuity.clock_minutes, morning() + 4 * 60);
}

#[test]
fn work_fills_the_driving_window_then_resumes_next_morning() {
    for (minute, expected_minute, elapsed_days) in
        [(480u16, 600u16, 0u32), (660, 780, 0), (720, 540, 1), (780, 600, 1), (1110, 600, 1), (1410, 600, 1)]
    {
        let mut before = GameState::default();
        before.continuity.clock_minutes = minute;
        let mut state = GameState::default();
        state.continuity.clock_minutes = minute;
        state.advance_clock(&before, 120);
        assert_eq!(state.continuity.clock_minutes, expected_minute);
        assert_eq!(state.day, before.day + elapsed_days);
    }
    let before = GameState::default();
    let mut state = GameState::default();
    state.advance_clock(&before, 90);
    assert_eq!(state.continuity.clock_minutes, 570);
    state.advance_clock(&before, 0);
    assert_eq!(state.continuity.clock_minutes, 570);
    state.day += 1;
    state.advance_clock(&before, 30);
    assert_eq!(state.continuity.clock_minutes, morning());
}

#[test]
fn wait_gate_tracks_drying_days() {
    let mut state = GameState::default();
    state.wait.drying_days_remaining = 1;
    let outcome = state.wait.next_wait_tag();
    assert!(outcome.is_some());
    assert_eq!(state.wait.drying_days_remaining, 0);
    assert_eq!(outcome, Some("wait_drying"));
    assert_eq!(state.wait.next_wait_tag(), None);
}

fn rest_cfg(supplies: i32, recovery_day: bool) -> CampConfig {
    CampConfig {
        rest: RestConfig { sanity: 2, hp: 3, supplies, day: 2, cooldown_days: 4, recovery_day },
        enabled: true,
    }
}

#[test]
fn camp_rest_is_refused_while_broken_down_disabled_or_cooling_down() {
    let mut gs = GameState::default();
    gs.breakdown = Some(Breakdown { part: Part::Battery, day_started: 1 });
    let o = camp_rest(&mut gs, &rest_cfg(-2, false));
    assert_eq!((o.message.as_str(), o.rested, o.supplies_delta), ("log.camp.rest.disabled", false, 0));
    assert_eq!(gs.day, 1);
    let mut gs = GameState::default();
    let mut off = rest_cfg(-2, false);
    off.rest.day = 0;
    assert_eq!(camp_rest(&mut gs, &off).message, "log.camp.rest.disabled");
    gs.camp.rest_cooldown = 1;
    let o = camp_rest(&mut gs, &rest_cfg(-2, false));
    assert_eq!(o.message, "log.camp.rest.cooldown");
    assert_eq!(gs.stats, Stats::default());
}

#[test]
fn camp_rest_pays_heals_passes_days_and_clears_strain() {
    let mut gs = GameState::default();
    gs.stats.supplies = 1;
    gs.stats.hp = 5;
    gs.stats.sanity = 9;
    let o = camp_rest(&mut gs, &rest_cfg(-3, true));
    assert!(o.rested);
    assert_eq!(o.message, "log.camp.rest");
    assert_eq!(o.supplies_delta, -1);
    assert_eq!(gs.stats.supplies, 0);
    assert_eq!(gs.stats.hp, 8);
    assert_eq!(gs.stats.sanity, 10);
    assert_eq!(gs.day, 3);
    assert_eq!(gs.camp.rest_cooldown, 4);
    assert_eq!(gs.disease_cooldown, 10);
    assert!(!gs.rest_requested);
    assert_eq!(gs.current_day_kind, Some(TravelDayKind::NonTravel));
    assert!(gs.suppress_stop_ratio);
    assert_eq!(gs.continuity.crew_care.last_check_day, 3);
    assert!(gs.continuity.crew_care.pending.is_none());
    assert_eq!(gs.logs.last().map(|s| s.as_str()), Some("log.camp.rest"));

    let mut gs = GameState::default();
    let o = camp_rest(&mut gs, &rest_cfg(4, false));
    assert_eq!(o.supplies_delta, 4);
    assert_eq!(gs.stats.supplies, 14);
    assert_eq!(gs.current_day_kind, None);
    assert_eq!(gs.day, 3);
}

#[test]
fn build_outcome_prefers_terminal_log_key() {
    let mut terminal = Some("log.terminal".to_string());
    let logs = vec!["log.extra".to_string()];
    let (key, ended) = resolve_day_close(&mut terminal, "log.fallback".to_string(), false, false);
    assert_eq!(key, "log.terminal");
    assert!(!ended);
    assert!(terminal.is_none());
    let batch = legacy_log_events(&Vec::new(), key.as_str(), &logs, 0, event_day(1, false), 0);
    assert!(batch.events.iter().any(|event| event.ui_key == "log.terminal"));
    assert!(batch.events.iter().any(|event| event.ui_key == "log.extra"));
    assert_eq!(batch.log_cursor, 1);

    let (key, ended) = resolve_day_close(&mut terminal, "log.fallback".to_string(), false, true);
    assert_eq!(key, "log.fallback");
    assert!(ended);
}

#[test]
fn late_route_camping_never_moves_the_van_or_finishes_the_route() {
    let cfg = CampConfig {
        rest: RestConfig { sanity: 1, hp: 1, supplies: -1, day: 1, cooldown_days: 1, recovery_day: false },
        enabled: true,
    };
    for forage in [false, true] {
        let mut state = GameState::default();
        state.endgame.active = true;
        state.endgame.stop_cap_max_full = 0;
        state.stats.supplies = 5;
        state.stats.sanity = 3;
        let before_day = state.day;
        let before_clock = state.continuity.clock_minutes;
        if forage {
            camp_forage(&mut state, &cfg);
        } else {
            camp_rest(&mut state, &cfg);
        }
        assert!(!state.boss.readiness.ready);
        assert_ne!(state.current_day_kind, Some(TravelDayKind::Travel));
        assert_ne!(state.current_day_kind, Some(TravelDayKind::Partial));
        if forage {
            assert_eq!(state.day, before_day);
            assert_eq!(state.continuity.clock_minutes, before_clock + 120);
            assert_eq!(state.current_day_kind, None);
        } else {
            assert_eq!(state.day, before_day + 1);
        }
    }
}

#[test]
fn field_repair_takes_the_first_available_resource() {
    let default_order: Vec<ResourceKind> = Vec::new();
    assert_eq!(field_repair_resource(&default_order, true, true, 0), Some(ResourceKind::MatchingSpare));
    assert_eq!(field_repair_resource(&default_order, false, true, 0), Some(ResourceKind::AnySpare));
    assert_eq!(field_repair_resource(&default_order, false, false, 1000), Some(ResourceKind::Emergency));
    assert_eq!(field_repair_resource(&default_order, false, false, 999), None);
    let cash_first = vec![ResourceKind::Emergency, ResourceKind::MatchingSpare];
    assert_eq!(field_repair_resource(&cash_first, true, true, 5000), Some(ResourceKind::Emergency));
    assert_eq!(field_repair_resource(&cash_first, true, true, 10), Some(ResourceKind::MatchingSpare));
    let spares_only = vec![ResourceKind::AnySpare];
    assert_eq!(field_repair_resource(&spares_only, true, false, 1000), Some(ResourceKind::Emergency));
}

#[test]
fn intent_gate_handles_rest_trade_hunt_and_pending_crossings() {
    let mut intent = IntentState { pending: DayIntent::Continue, rest_days_remaining: 0 };
    assert_eq!(intent.run_gate(), None);
    intent.pending = DayIntent::CrossingChoicePending;
    assert_eq!(intent.run_gate(), Some(IntentGate::CrossingChoicePending));
    assert_eq!(intent.pending, DayIntent::CrossingChoicePending);
    intent = IntentState { pending: DayIntent::Rest, rest_days_remaining: 2 };
    assert_eq!(intent.run_gate(), Some(IntentGate::Rest));
    assert_eq!(intent.rest_days_remaining, 1);
    assert_eq!(intent.pending, DayIntent::Rest);
    assert_eq!(intent.run_gate(), Some(IntentGate::Rest));
    assert_eq!(intent.pending, DayIntent::Continue);
    intent = IntentState { pending: DayIntent::Trade, rest_days_remaining: 4 };
    assert_eq!(intent.run_gate(), Some(IntentGate::Trade));
    assert_eq!(intent, IntentState { pending: DayIntent::Continue, rest_days_remaining: 0 });
    intent.pending = DayIntent::Hunt;
    assert_eq!(intent.run_gate(), Some(IntentGate::Hunt));
    assert_eq!(intent.pending, DayIntent::Continue);
}

#[test]
fn closing_a_day_dates_events_and_moves_the_cursor() {
    let mut terminal = None;
    let logs = vec!["log.a".to_string(), "log.b".to_string(), "log.a".to_string()];
    let close = close_day(&Vec::new(), &mut terminal, "log.traveled".to_string(), false, false, &logs, 1, 5, true, 3);
    assert_eq!(close.log_key, "log.traveled");
    assert!(!close.ended);
    assert_eq!(close.event_day, 4);
    let keys: Vec<&str> = close.batch.events.iter().map(|e| e.ui_key.as_str()).collect();
    assert_eq!(keys, vec!["log.traveled", "log.b", "log.a"]);
    assert!(close.batch.events.iter().all(|e| e.day == 4));
    assert_eq!(close.batch.next_seq, 6);
    assert_eq!(close.batch.log_cursor, 3);
}
