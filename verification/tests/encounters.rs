use dystrail_game::data::{Encounter, EncounterData};
use dystrail_game::encounters::{
    build_last_seen_map, build_recent_region_counts, build_rotation_backlog, build_weights,
    categorize_candidates, choose_weighted, determine_selection, encounter_regions,
    filter_candidates, find_candidate, global_min_region_count, is_forage, pick_encounter,
    try_pick_forced_from_queue, try_pick_ready_from_queue, EncounterRequest, RegionCounts,
};
use dystrail_game::state::{PolicyKind, RecentEncounter, Region};
use rand::rngs::SmallRng;
use rand::{Rng, SeedableRng};
use std::collections::VecDeque;

fn make_enc(id: &str, regions: &[&str]) -> Encounter {
    Encounter {
        id: id.to_string(),
        name: format!("Encounter {id}"),
        desc: String::new(),
        weight: 3,
        regions: regions.iter().map(|r| (*r).to_string()).collect(),
        modes: vec![String::from("classic"), String::from("deep")],
        hard_stop: false,
        major_repair: false,
        chainable: false,
    }
}

fn sample_encounters() -> EncounterData {
    EncounterData::from_encounters(vec![
        make_enc("alpha", &["Heartland"]),
        make_enc("beta", &["Heartland", "RustBelt"]),
        make_enc("gamma", &[]),
    ])
}

fn mk_request(data: &EncounterData) -> EncounterRequest<'_> {
    EncounterRequest {
        region: Region::Heartland,
        is_deep: true,
        malnutrition_level: 2,
        starving: false,
        data,
        recent: &[],
        current_day: 12,
        policy: Some(PolicyKind::Conservative),
        force_rotation: false,
    }
}

fn plain_request<'a>(data: &'a EncounterData, recent: &'a [RecentEncounter], day: u32, force: bool) -> EncounterRequest<'a> {
    EncounterRequest {
        region: Region::Heartland,
        is_deep: false,
        malnutrition_level: 0,
        starving: false,
        data,
        recent,
        current_day: day,
        policy: None,
        force_rotation: force,
    }
}

#[test]
fn rotation_backlog_skips_recent_encounters() {
    let data = EncounterData::from_encounters(vec![
        make_enc("enc_a", &["Heartland"]),
        make_enc("enc_b", &["Heartland"]),
        make_enc("enc_c", &["Heartland"]),
        make_enc("enc_d", &["Heartland"]),
        make_enc("enc_e", &["Heartland"]),
    ]);
    let recent = vec![
        RecentEncounter::new("enc_a".to_string(), 17, Region::Heartland),
        RecentEncounter::new("enc_b".to_string(), 15, Region::Heartland),
        RecentEncounter::new("enc_e".to_string(), 19, Region::Heartland),
    ];
    let request = plain_request(&data, &recent, 20, true);
    let candidates = filter_candidates(&request);
    let last_seen = build_last_seen_map(request.recent);
    let backlog = build_rotation_backlog(&request, &candidates, &last_seen);
    let mut ids: Vec<_> = backlog.into_iter().collect();
    ids.sort();
    assert_eq!(ids, vec!["enc_a", "enc_b", "enc_c", "enc_d", "enc_e"]);
}

#[test]
fn pick_encounter_respects_rotation_queue() {
    let data = sample_encounters();
    let mut queue = VecDeque::new();
    let mut request = mk_request(&data);
    request.force_rotation = true;
    let mut rng = SmallRng::seed_from_u64(0);
    let _ = pick_encounter(&request, &mut queue, &mut rng);
}

#[test]
fn weighted_selection_emits_decision_trace() {
    let data = sample_encounters();
    let current_day = 20;
    let recent = vec![
        RecentEncounter::new(String::from("alpha"), current_day - 1, Region::Heartland),
        RecentEncounter::new(String::from("beta"), current_day - 1, Region::Heartland),
        RecentEncounter::new(String::from("gamma"), current_day - 1, Region::Heartland),
    ];
    let request = plain_request(&data, &recent, current_day, false);
    let candidates = filter_candidates(&request);
    let last_seen = build_last_seen_map(&recent);
    let (primary, fallback) = categorize_candidates(&request, &candidates, &last_seen);
    let (selection, rotation_satisfied) =
        determine_selection(primary, fallback, request.force_rotation, candidates.len());
    assert!(!rotation_satisfied, "no forced rotation in this scenario");
    let weighted = build_weights(selection, &candidates, &request, &last_seen, None, 0);
    let total_weight: u32 = weighted.iter().map(|(_, weight)| *weight).sum();
    assert!(total_weight > 0, "expected non-empty weighted pool");

    let mut expected_rng = SmallRng::seed_from_u64(1);
    let expected_roll = expected_rng.gen_range(0..total_weight);
    let mut expected_choice = weighted.first().map(|(idx, _)| *idx).expect("weighted pool has entries");
    let mut current = 0_u32;
    for (idx, weight) in &weighted {
        current = current.saturating_add(*weight);
        if expected_roll < current {
            expected_choice = *idx;
            break;
        }
    }

    let mut queue = VecDeque::new();
    let mut rng = SmallRng::seed_from_u64(1);
    let pick = pick_encounter(&request, &mut queue, &mut rng);
    assert_eq!(pick.rotation_satisfied, rotation_satisfied);
    let encounter = pick.encounter.expect("encounter selected");
    assert_eq!(encounter.id, data.encounters[candidates[expected_choice]].id);

    let trace = pick.decision_trace.expect("decision trace recorded");
    assert_eq!(trace.pool_id, "dystrail.encounter");
    assert_eq!(trace.roll, expected_roll);
    assert_eq!(trace.chosen_id, encounter.id);
    assert_eq!(trace.candidates.len(), weighted.len());
    for (candidate_trace, (idx, weight)) in trace.candidates.iter().zip(weighted.iter()) {
        let encounter = &data.encounters[candidates[*idx]];
        assert_eq!(candidate_trace.id, encounter.id);
        assert_eq!(candidate_trace.base_weight, encounter.weight.max(1));
        assert_eq!(candidate_trace.final_weight, *weight);
    }
}

#[test]
fn weighted_choice_prefers_higher_weight() {
    let mut rng = SmallRng::seed_from_u64(1);
    let weights = vec![(0, 1), (1, 50)];
    let pick = choose_weighted(&weights, &mut rng).map(|(idx, _)| idx);
    assert_eq!(pick, Some(1));
}

#[test]
fn weights_apply_starvation_bonus_to_forage() {
    let mut forage = make_enc("forage_cache", &["Heartland"]);
    forage.name = "Forage Cache".to_string();
    let normal = make_enc("normal", &["Heartland"]);
    let data = EncounterData::from_encounters(vec![forage, normal]);
    let request = EncounterRequest {
        region: Region::Heartland,
        is_deep: false,
        malnutrition_level: 1,
        starving: true,
        data: &data,
        recent: &[],
        current_day: 10,
        policy: None,
        force_rotation: false,
    };
    let candidates = filter_candidates(&request);
    let last_seen = build_last_seen_map(&[]);
    let weights = build_weights(vec![0, 1], &candidates, &request, &last_seen, None, 0);
    let forage_weight = weights.iter().find(|(idx, _)| *idx == 0).map_or(0, |(_, w)| *w);
    let normal_weight = weights.iter().find(|(idx, _)| *idx == 1).map_or(0, |(_, w)| *w);
    assert!(forage_weight > normal_weight);
}

#[test]
fn weights_penalize_chainable_encounters() {
    let mut chainable = make_enc("chain", &["Heartland"]);
    chainable.chainable = true;
    let normal = make_enc("plain", &["Heartland"]);
    let data = EncounterData::from_encounters(vec![chainable, normal]);
    let request = plain_request(&data, &[], 10, false);
    let candidates = filter_candidates(&request);
    let last_seen = build_last_seen_map(&[]);
    let weights = build_weights(vec![0, 1], &candidates, &request, &last_seen, None, 0);
    let chain_weight = weights.iter().find(|(idx, _)| *idx == 0).map_or(0, |(_, w)| *w);
    let normal_weight = weights.iter().find(|(idx, _)| *idx == 1).map_or(0, |(_, w)| *w);
    assert!(chain_weight < normal_weight);
}

#[test]
fn choose_weighted_returns_none_when_total_zero() {
    let mut rng = SmallRng::seed_from_u64(0);
    let weights = vec![(0, 0)];
    assert!(choose_weighted(&weights, &mut rng).is_none());
}

#[test]
fn forced_rotation_rebuilds_queue_when_empty() {
    let data = sample_encounters();
    let mut request = mk_request(&data);
    request.force_rotation = true;
    request.is_deep = false;
    let candidates = filter_candidates(&request);
    let last_seen = build_last_seen_map(request.recent);
    let mut queue = VecDeque::new();
    let picked = try_pick_forced_from_queue(&request, &mut queue, &candidates, &last_seen);
    assert!(picked.is_some());
}

#[test]
fn region_counts_track_minimum() {
    let recent = vec![
        RecentEncounter::new("a".to_string(), 2, Region::Heartland),
        RecentEncounter::new("b".to_string(), 3, Region::Heartland),
        RecentEncounter::new("c".to_string(), 4, Region::RustBelt),
    ];
    let counts = build_recent_region_counts(&recent);
    assert_eq!(counts.get(Region::Heartland), 2);
    assert_eq!(counts.get(Region::RustBelt), 1);
    assert_eq!(global_min_region_count(&counts), 0);
}

#[test]
fn try_pick_ready_from_queue_skips_recent() {
    let data = sample_encounters();
    let recent = vec![RecentEncounter::new(String::from("alpha"), 19, Region::Heartland)];
    let request = plain_request(&data, &recent, 20, false);
    let candidates = filter_candidates(&request);
    let last_seen = build_last_seen_map(request.recent);
    let mut queue = VecDeque::from(vec![String::from("alpha"), String::from("beta")]);
    let picked = try_pick_ready_from_queue(&request, &mut queue, &candidates, &last_seen);
    assert!(picked.is_some());
    assert_eq!(data.encounters[picked.expect("picked")].id, "beta");
}

#[test]
fn try_pick_ready_from_queue_returns_none_when_empty() {
    let data = sample_encounters();
    let request = mk_request(&data);
    let candidates = filter_candidates(&request);
    let last_seen = build_last_seen_map(request.recent);
    let mut queue = VecDeque::new();
    let picked = try_pick_ready_from_queue(&request, &mut queue, &candidates, &last_seen);
    assert!(picked.is_none());
    assert!(queue.is_empty());
}

#[test]
fn try_pick_ready_from_queue_returns_none_when_unready() {
    let data = sample_encounters();
    let recent = vec![RecentEncounter::new(String::from("alpha"), 10, Region::Heartland)];
    let request = plain_request(&data, &recent, 11, false);
    let candidates = filter_candidates(&request);
    let last_seen = build_last_seen_map(request.recent);
    let mut queue = VecDeque::from(vec![String::from("alpha"), String::from("unknown")]);
    let picked = try_pick_ready_from_queue(&request, &mut queue, &candidates, &last_seen);
    assert!(picked.is_none());
    assert_eq!(queue, VecDeque::from(vec![String::from("alpha"), String::from("unknown")]));
}

#[test]
fn try_pick_forced_from_queue_returns_none_when_missing_candidates() {
    let data = sample_encounters();
    let mut request = mk_request(&data);
    request.force_rotation = true;
    let candidates = filter_candidates(&request);
    let last_seen = build_last_seen_map(request.recent);
    let mut queue = VecDeque::from(vec![String::from("unknown")]);
    let picked = try_pick_forced_from_queue(&request, &mut queue, &candidates, &last_seen);
    assert!(picked.is_none());
    assert!(queue.is_empty());
}

#[test]
fn pick_encounter_prefers_ready_rotation_queue() {
    let data = sample_encounters();
    let request = plain_request(&data, &[], 5, false);
    let mut queue = VecDeque::from(vec![String::from("alpha")]);
    let mut rng = SmallRng::seed_from_u64(9);
    let pick = pick_encounter(&request, &mut queue, &mut rng);
    assert!(pick.rotation_satisfied);
    assert_eq!(pick.encounter.expect("encounter").id, "alpha");
}

#[test]
fn encounter_regions_falls_back_to_default() {
    let encounter = make_enc("delta", &["unknown"]);
    let regions = encounter_regions(&encounter, Region::Beltway);
    assert_eq!(regions, vec![Region::Beltway]);
    let encounter = make_enc("eps", &["Heartland", "RustBelt"]);
    let regions = encounter_regions(&encounter, Region::Beltway);
    assert_eq!(regions, vec![Region::Heartland, Region::RustBelt]);
}

#[test]
fn build_last_seen_map_tracks_latest_day() {
    let recent = vec![
        RecentEncounter::new(String::from("alpha"), 2, Region::Heartland),
        RecentEncounter::new(String::from("alpha"), 5, Region::Heartland),
        RecentEncounter::new(String::from("beta"), 3, Region::Heartland),
    ];
    let map = build_last_seen_map(&recent);
    assert_eq!(map.get("alpha"), Some(5));
    assert_eq!(map.get("beta"), Some(3));
}

#[test]
fn categorize_candidates_force_rotation_separates_recent() {
    let data = EncounterData::from_encounters(vec![make_enc("a", &["Heartland"]), make_enc("b", &["Heartland"])]);
    let recent = vec![RecentEncounter::new(String::from("a"), 10, Region::Heartland)];
    let request = plain_request(&data, &recent, 10, true);
    let candidates = filter_candidates(&request);
    let last_seen = build_last_seen_map(&recent);
    let (primary, fallback) = categorize_candidates(&request, &candidates, &last_seen);
    assert!(primary.contains(&1));
    assert!(fallback.contains(&0));
}

#[test]
fn build_rotation_backlog_empty_for_chainable_only() {
    let mut encounter = make_enc("chain", &["Heartland"]);
    encounter.chainable = true;
    let data = EncounterData::from_encounters(vec![encounter]);
    let request = plain_request(&data, &[], 5, false);
    let candidates = filter_candidates(&request);
    let last_seen = build_last_seen_map(request.recent);
    let backlog = build_rotation_backlog(&request, &candidates, &last_seen);
    assert!(backlog.is_empty());
}

#[test]
fn build_weights_boosts_min_region_when_conservative() {
    let mut encounter = make_enc("alpha", &["Heartland"]);
    encounter.modes = vec![String::from("deep")];
    let data = EncounterData::from_encounters(vec![encounter]);
    let request = EncounterRequest {
        region: Region::Heartland,
        is_deep: true,
        malnutrition_level: 0,
        starving: false,
        data: &data,
        recent: &[],
        current_day: 5,
        policy: Some(PolicyKind::Conservative),
        force_rotation: false,
    };
    let candidates = filter_candidates(&request);
    let last_seen = build_last_seen_map(&[]);
    let selection = vec![0];
    let baseline = build_weights(selection.clone(), &candidates, &request, &last_seen, None, 0);
    let counts = RegionCounts { heartland: 0, rust_belt: 1, beltway: 1 };
    let region_min = global_min_region_count(&counts);
    let boosted = build_weights(selection, &candidates, &request, &last_seen, Some(counts), region_min);
    assert!(boosted[0].1 > baseline[0].1);
}

#[test]
fn pick_encounter_returns_none_when_no_candidates() {
    let mut encounter = make_enc("deep_only", &["RustBelt"]);
    encounter.modes = vec![String::from("deep")];
    let data = EncounterData::from_encounters(vec![encounter]);
    let request = plain_request(&data, &[], 2, false);
    let mut queue = VecDeque::new();
    let mut rng = SmallRng::seed_from_u64(0);
    let pick = pick_encounter(&request, &mut queue, &mut rng);
    assert!(pick.encounter.is_none());
    assert!(!pick.rotation_satisfied);
}

#[test]
fn try_pick_forced_from_queue_returns_none_when_not_forced() {
    let data = sample_encounters();
    let request = mk_request(&data);
    let candidates = filter_candidates(&request);
    let last_seen = build_last_seen_map(request.recent);
    let mut queue = VecDeque::new();
    let picked = try_pick_forced_from_queue(&request, &mut queue, &candidates, &last_seen);
    assert!(picked.is_none());
}

#[test]
fn filter_candidates_respects_regions_and_modes() {
    let mut deep_only = make_enc("deep", &["Beltway"]);
    deep_only.modes = vec![String::from("deep")];
    let mut classic_only = make_enc("classic", &["RustBelt"]);
    classic_only.modes = vec![String::from("classic")];
    let mut any_region = make_enc("any", &[]);
    any_region.modes.clear();
    let data = EncounterData::from_encounters(vec![deep_only, classic_only, any_region]);
    let mut request_classic = plain_request(&data, &[], 1, false);
    request_classic.region = Region::RustBelt;
    assert_eq!(filter_candidates(&request_classic).len(), 2);
    let mut request_deep = plain_request(&data, &[], 1, false);
    request_deep.region = Region::Beltway;
    request_deep.is_deep = true;
    assert_eq!(filter_candidates(&request_deep).len(), 2);
}

#[test]
fn categorize_candidates_tracks_repeat_windows() {
    let data = EncounterData::from_encounters(vec![make_enc("fresh", &["Heartland"]), make_enc("recent", &["Heartland"])]);
    let recent = vec![RecentEncounter::new(String::from("recent"), 19, Region::Heartland)];
    let request = plain_request(&data, &recent, 20, false);
    let candidates = filter_candidates(&request);
    let last_seen = build_last_seen_map(&recent);
    let (primary, fallback) = categorize_candidates(&request, &candidates, &last_seen);
    assert!(primary.contains(&0));
    assert!(fallback.contains(&1));
}

#[test]
fn build_weights_boosts_conservative_region_floor() {
    let mut alpha = make_enc("alpha", &["Heartland"]);
    alpha.modes = vec![String::from("deep")];
    let mut beta = make_enc("beta", &["RustBelt"]);
    beta.modes = vec![String::from("deep")];
    let data = EncounterData::from_encounters(vec![alpha, beta]);
    let recent = vec![RecentEncounter::new(String::from("alpha"), 10, Region::Heartland)];
    let request = EncounterRequest {
        region: Region::Heartland,
        is_deep: true,
        malnutrition_level: 0,
        starving: false,
        data: &data,
        recent: &recent,
        current_day: 20,
        policy: Some(PolicyKind::Conservative),
        force_rotation: false,
    };
    let candidates = filter_candidates(&request);
    let last_seen = build_last_seen_map(&recent);
    let region_counts = build_recent_region_counts(&recent);
    let region_min = global_min_region_count(&region_counts);
    let selection: Vec<usize> = (0..candidates.len()).collect();
    let weights = build_weights(selection, &candidates, &request, &last_seen, Some(region_counts), region_min);
    assert_eq!(weights.len(), candidates.len());
}

#[test]
fn pick_encounter_builds_region_counts_for_deep_conservative() {
    let mut enc = make_enc("alpha", &["Heartland"]);
    enc.modes = vec![String::from("deep")];
    let data = EncounterData::from_encounters(vec![enc]);
    let recent = vec![RecentEncounter::new(String::from("alpha"), 2, Region::Heartland)];
    let request = EncounterRequest {
        region: Region::Heartland,
        is_deep: true,
        malnutrition_level: 0,
        starving: false,
        data: &data,
        recent: &recent,
        current_day: 3,
        policy: Some(PolicyKind::Conservative),
        force_rotation: false,
    };
    let mut queue = VecDeque::new();
    let mut rng = SmallRng::seed_from_u64(2);
    let pick = pick_encounter(&request, &mut queue, &mut rng);
    assert!(pick.encounter.is_some());
}

#[test]
fn build_rotation_backlog_skips_chainable_entries() {
    let mut chainable = make_enc("chain", &["Heartland"]);
    chainable.chainable = true;
    let data = EncounterData::from_encounters(vec![chainable, make_enc("plain", &["Heartland"])]);
    let request = plain_request(&data, &[], 10, true);
    let candidates = filter_candidates(&request);
    let last_seen = build_last_seen_map(request.recent);
    let backlog = build_rotation_backlog(&request, &candidates, &last_seen);
    let ids: Vec<_> = backlog.into_iter().collect();
    assert_eq!(ids, vec!["plain"]);
}

#[test]
fn pick_encounter_returns_ready_rotation_candidate() {
    let data = EncounterData::from_encounters(vec![make_enc("alpha", &["Heartland"])]);
    let request = plain_request(&data, &[], 10, false);
    let mut queue = VecDeque::from([String::from("alpha")]);
    let mut rng = SmallRng::seed_from_u64(1);
    let pick = pick_encounter(&request, &mut queue, &mut rng);
    assert!(pick.rotation_satisfied);
    assert!(pick.encounter.is_some());
}

#[test]
fn pick_encounter_returns_forced_rotation_candidate() {
    let data = EncounterData::from_encounters(vec![make_enc("alpha", &["Heartland"])]);
    let recent = [RecentEncounter { id: String::from("alpha"), day: 10, region: Some(Region::Heartland) }];
    let request = plain_request(&data, &recent, 10, true);
    let mut queue = VecDeque::from([String::from("alpha")]);
    let mut rng = SmallRng::seed_from_u64(2);
    let pick = pick_encounter(&request, &mut queue, &mut rng);
    assert!(pick.rotation_satisfied);
    assert!(pick.encounter.is_some());
}

#[test]
fn find_candidate_matches_by_id() {
    let data = sample_encounters();
    let candidates: Vec<usize> = (0..data.encounters.len()).collect();
    let found = find_candidate(&data.encounters, &candidates, "beta");
    assert!(found.is_some());
}

#[test]
fn ready_rotation_pick_returns_encounter() {
    let data = sample_encounters();
    let mut queue = VecDeque::from([String::from("alpha")]);
    let mut request = mk_request(&data);
    request.force_rotation = false;
    let mut rng = SmallRng::seed_from_u64(7);
    let pick = pick_encounter(&request, &mut queue, &mut rng);
    assert!(pick.encounter.is_some());
    assert!(pick.rotation_satisfied);
}

#[test]
fn forced_rotation_pick_returns_encounter() {
    let data = sample_encounters();
    let mut queue = VecDeque::from([String::from("alpha")]);
    let recent = vec![RecentEncounter::new(String::from("alpha"), 12, Region::Heartland)];
    let request = EncounterRequest { recent: &recent, force_rotation: true, ..mk_request(&data) };
    let mut rng = SmallRng::seed_from_u64(8);
    let pick = pick_encounter(&request, &mut queue, &mut rng);
    assert!(pick.encounter.is_some());
    assert!(pick.rotation_satisfied);
}

#[test]
fn selection_path_uses_region_counts_for_conservative_deep() {
    let data = sample_encounters();
    let current_day = 12;
    let recent = vec![
        RecentEncounter::new(String::from("alpha"), current_day, Region::Heartland),
        RecentEncounter::new(String::from("beta"), current_day, Region::Heartland),
        RecentEncounter::new(String::from("gamma"), current_day, Region::Heartland),
    ];
    let request = EncounterRequest {
        is_deep: true,
        policy: Some(PolicyKind::Conservative),
        current_day,
        recent: &recent,
        ..mk_request(&data)
    };
    let mut queue = VecDeque::new();
    let mut rng = SmallRng::seed_from_u64(4);
    let pick = pick_encounter(&request, &mut queue, &mut rng);
    assert!(pick.encounter.is_some());
    assert!(pick.decision_trace.is_some());
}

#[test]
fn forced_rotation_prefers_queue_when_recent() {
    let data = sample_encounters();
    let recent = vec![RecentEncounter::new(String::from("alpha"), 12, Region::Heartland)];
    let request = EncounterRequest { force_rotation: true, recent: &recent, ..mk_request(&data) };
    let mut queue = VecDeque::from([String::from("alpha")]);
    let mut rng = SmallRng::seed_from_u64(11);
    let pick = pick_encounter(&request, &mut queue, &mut rng);
    assert!(pick.rotation_satisfied);
    assert!(pick.encounter.is_some());
}

#[test]
fn weighted_selection_records_region_counts() {
    let encounter = Encounter {
        id: String::from("regioned"),
        name: String::from("Regioned"),
        desc: String::new(),
        weight: 1,
        regions: vec![String::from("heartland")],
        modes: vec![String::from("deep")],
        hard_stop: false,
        major_repair: false,
        chainable: false,
    };
    let data = EncounterData::from_encounters(vec![encounter]);
    let recent = vec![RecentEncounter::new(String::from("regioned"), 12, Region::Heartland)];
    let request = EncounterRequest {
        region: Region::Heartland,
        is_deep: true,
        malnutrition_level: 0,
        starving: false,
        data: &data,
        recent: &recent,
        current_day: 12,
        policy: Some(PolicyKind::Conservative),
        force_rotation: false,
    };
    let mut queue = VecDeque::new();
    let mut rng = SmallRng::seed_from_u64(12);
    let pick = pick_encounter(&request, &mut queue, &mut rng);
    assert!(pick.encounter.is_some());
    assert!(pick.decision_trace.is_some());
}

#[test]
fn filter_candidates_honors_regions_and_modes() {
    let encounter = Encounter {
        id: String::from("regioned"),
        name: String::from("Regioned"),
        desc: String::new(),
        weight: 1,
        regions: vec![String::from("Heartland")],
        modes: vec![String::from("classic")],
        hard_stop: false,
        major_repair: false,
        chainable: false,
    };
    let data = EncounterData::from_encounters(vec![encounter]);
    let request = plain_request(&data, &[], 1, false);
    assert_eq!(filter_candidates(&request).len(), 1);
}

#[test]
fn categorize_candidates_respects_chainable() {
    let data = sample_encounters();
    let mut encounter = make_enc("alpha", &["Heartland"]);
    encounter.chainable = true;
    let own = EncounterData::from_encounters(vec![make_enc("alpha", &["Heartland"])]);
    let _ = own;
    let single = EncounterData::from_encounters(vec![encounter]);
    let recent = [RecentEncounter::new(String::from("alpha"), 10, Region::Heartland)];
    let request = EncounterRequest { data: &single, recent: &recent, current_day: 10, ..mk_request(&data) };
    let candidates = vec![0usize];
    let last_seen = build_last_seen_map(request.recent);
    let (primary, fallback) = categorize_candidates(&request, &candidates, &last_seen);
    assert_eq!(primary, vec![0]);
    assert!(fallback.is_empty());
}

#[test]
fn forage_detection_lowercases_names() {
    let mut loud = make_enc("cache", &[]);
    loud.name = String::from("FORAGE RUN");
    assert!(is_forage(&loud));
    let mut gather = make_enc("cache", &[]);
    gather.name = String::from("Gather Berries");
    assert!(is_forage(&gather));
    assert!(!is_forage(&make_enc("quiet", &[])));
}

#[test]
fn backlog_orders_longest_unseen_first_then_by_id() {
    let data = EncounterData::from_encounters(vec![
        make_enc("zeta", &["Heartland"]),
        make_enc("alpha", &["Heartland"]),
        make_enc("mid", &["Heartland"]),
    ]);
    let recent = vec![
        RecentEncounter::new(String::from("mid"), 18, Region::Heartland),
        RecentEncounter::new(String::from("zeta"), 10, Region::Heartland),
    ];
    let request = plain_request(&data, &recent, 20, true);
    let candidates = filter_candidates(&request);
    let last_seen = build_last_seen_map(request.recent);
    let backlog: Vec<String> = build_rotation_backlog(&request, &candidates, &last_seen).into_iter().collect();
    assert_eq!(backlog, vec!["alpha", "zeta", "mid"]);
}
