//! Encounter selection: eligibility, repeat windows, rotation backlog and
//! weighted choice.
use crate::constants::ENCOUNTER_REPEAT_WINDOW_DAYS;
use crate::constants::ROTATION_LOOKBACK_DAYS;
use crate::data::{Encounter, EncounterData};
use crate::rng::gen_range_u32;
use crate::state::{PolicyKind, RecentEncounter, Region};
use crate::strmap::StrMap;
use crate::text::{
    lemma_lex_asymmetric, lemma_lex_irreflexive, lemma_lex_negative_transitive, lex_lt, str_lt,
    contains_spec, contains_str, eq_ignore_ascii_case, eq_ignore_ascii_case_spec, to_lowercase,
    unicode_lowercase,
};
use rand::rngs::SmallRng;
use std::collections::VecDeque;
use vstd::multiset::Multiset;
use vstd::prelude::*;
use vstd::relations::sorted_by;

verus! {

broadcast use vstd::std_specs::vecdeque::group_vec_dequeue_axioms;

/// Everything the selection rules read about the current day.
pub struct EncounterRequest<'a> {
    pub region: Region,
    pub is_deep: bool,
    pub malnutrition_level: u32,
    pub starving: bool,
    pub data: &'a EncounterData,
    pub recent: &'a [RecentEncounter],
    pub current_day: u32,
    pub policy: Option<PolicyKind>,
    pub force_rotation: bool,
}

// ---------------------------------------------------------------------------
// Region labels
// ---------------------------------------------------------------------------

/// Lower-case label of a region as used by encounter content.
pub open spec fn region_label(region: Region) -> Seq<char> {
    match region {
        Region::Heartland => "heartland"@,
        Region::RustBelt => "rustbelt"@,
        Region::Beltway => "beltway"@,
    }
}

/// The region a content label names, ignoring ASCII case.
pub open spec fn parse_region_spec(label: Seq<char>) -> Option<Region> {
    if eq_ignore_ascii_case_spec(label, "heartland"@) {
        Some(Region::Heartland)
    } else if eq_ignore_ascii_case_spec(label, "rustbelt"@) {
        Some(Region::RustBelt)
    } else if eq_ignore_ascii_case_spec(label, "beltway"@) {
        Some(Region::Beltway)
    } else {
        None
    }
}

pub fn parse_region(label: &str) -> (r: Option<Region>)
    ensures
        r == parse_region_spec(label@),
{
    if eq_ignore_ascii_case(label, "heartland") {
        Some(Region::Heartland)
    } else if eq_ignore_ascii_case(label, "rustbelt") {
        Some(Region::RustBelt)
    } else if eq_ignore_ascii_case(label, "beltway") {
        Some(Region::Beltway)
    } else {
        None
    }
}

fn region_label_str(region: Region) -> (r: &'static str)
    ensures
        r@ == region_label(region),
{
    match region {
        Region::Heartland => "heartland",
        Region::RustBelt => "rustbelt",
        Region::Beltway => "beltway",
    }
}

/// Regions named by labels, in order, skipping labels that name none.
pub open spec fn parsed_regions(labels: Seq<String>) -> Seq<Region>
    decreases labels.len(),
{
    if labels.len() == 0 {
        Seq::empty()
    } else {
        let rest = parsed_regions(labels.drop_last());
        match parse_region_spec(labels.last()@) {
            Some(r) => rest.push(r),
            None => rest,
        }
    }
}

/// Regions of an encounter, or the fallback region when it names none.
pub open spec fn encounter_regions_spec(encounter: Encounter, fallback: Region) -> Seq<Region> {
    let parsed = parsed_regions(encounter.regions@);
    if parsed.len() == 0 {
        seq![fallback]
    } else {
        parsed
    }
}

pub fn encounter_regions(encounter: &Encounter, fallback: Region) -> (r: Vec<Region>)
    ensures
        r@ == encounter_regions_spec(*encounter, fallback),
{
    let mut regions: Vec<Region> = Vec::new();
    let mut i: usize = 0;
    while i < encounter.regions.len()
        invariant
            i <= encounter.regions@.len(),
            regions@ == parsed_regions(encounter.regions@.take(i as int)),
        decreases encounter.regions@.len() - i,
    {
        assert(encounter.regions@.take(i + 1).drop_last() =~= encounter.regions@.take(i as int));
        if let Some(region) = parse_region(encounter.regions[i].as_str()) {
            regions.push(region);
        }
        i = i + 1;
    }
    assert(encounter.regions@.take(encounter.regions@.len() as int) =~= encounter.regions@);
    if regions.len() == 0 {
        regions.push(fallback);
    }
    regions
}

// ---------------------------------------------------------------------------
// Eligibility
// ---------------------------------------------------------------------------

/// Some label equals `target` ignoring ASCII case.
pub open spec fn some_label_is(labels: Seq<String>, target: Seq<char>) -> bool {
    exists|i: int| 0 <= i < labels.len() && eq_ignore_ascii_case_spec(#[trigger] labels[i]@, target)
}

/// The encounter may appear in this region and game mode.
pub open spec fn eligible(encounter: Encounter, region: Region, is_deep: bool) -> bool {
    let region_match = encounter.regions@.len() == 0 || some_label_is(
        encounter.regions@,
        region_label(region),
    );
    let mode_match = encounter.modes@.len() == 0 || if is_deep {
        some_label_is(encounter.modes@, "deep"@) || some_label_is(encounter.modes@, "deep_end"@)
    } else {
        some_label_is(encounter.modes@, "classic"@)
    };
    region_match && mode_match
}

/// Positions `0..n`, in order, that satisfy `p`.
pub open spec fn positions_where(n: nat, p: spec_fn(int) -> bool) -> Seq<usize>
    decreases n,
{
    if n == 0 {
        Seq::empty()
    } else {
        let rest = positions_where((n - 1) as nat, p);
        if p(n - 1) {
            rest.push((n - 1) as usize)
        } else {
            rest
        }
    }
}

pub proof fn lemma_positions_where_bounded(n: nat, p: spec_fn(int) -> bool)
    requires
        n <= usize::MAX,
    ensures
        positions_where(n, p).len() <= n,
        forall|k: int| 0 <= k < positions_where(n, p).len() ==> #[trigger] positions_where(n, p)[k]
            < n && p(positions_where(n, p)[k] as int),
    decreases n,
{
    if n > 0 {
        lemma_positions_where_bounded((n - 1) as nat, p);
        let rest = positions_where((n - 1) as nat, p);
        if p(n - 1) {
            assert forall|k: int| 0 <= k < positions_where(n, p).len() implies #[trigger] positions_where(n, p)[k]
                < n && p(positions_where(n, p)[k] as int) by {
                assert(positions_where(n, p) == rest.push((n - 1) as usize));
                if k < rest.len() {
                    assert(positions_where(n, p)[k] == rest[k]);
                    assert(rest[k] < n - 1 && p(rest[k] as int));
                } else {
                    assert(positions_where(n, p)[k] == (n - 1) as usize);
                }
            }
        }
    }
}

fn some_label_matches(labels: &Vec<String>, target: &str) -> (r: bool)
    ensures
        r == some_label_is(labels@, target@),
{
    let mut i: usize = 0;
    while i < labels.len()
        invariant
            i <= labels@.len(),
            forall|k: int| 0 <= k < i ==> !eq_ignore_ascii_case_spec(#[trigger] labels@[k]@, target@),
        decreases labels@.len() - i,
    {
        if eq_ignore_ascii_case(labels[i].as_str(), target) {
            return true;
        }
        i = i + 1;
    }
    false
}

/// Whether the encounter may appear in this region and mode.
pub fn is_eligible(encounter: &Encounter, region: Region, is_deep: bool) -> (r: bool)
    ensures
        r == eligible(*encounter, region, is_deep),
{
    let region_match = encounter.regions.len() == 0 || some_label_matches(
        &encounter.regions,
        region_label_str(region),
    );
    let mode_match = encounter.modes.len() == 0 || if is_deep {
        some_label_matches(&encounter.modes, "deep") || some_label_matches(
            &encounter.modes,
            "deep_end",
        )
    } else {
        some_label_matches(&encounter.modes, "classic")
    };
    region_match && mode_match
}

/// Positions of the encounters that may appear under this request.
pub open spec fn candidates_spec(request: EncounterRequest) -> Seq<usize> {
    positions_where(
        request.data.encounters@.len(),
        |i: int| eligible(request.data.encounters@[i], request.region, request.is_deep),
    )
}

/// Positions in `request.data.encounters` of the eligible encounters.
pub fn filter_candidates(request: &EncounterRequest) -> (r: Vec<usize>)
    ensures
        r@ == candidates_spec(*request),
        forall|k: int| 0 <= k < r@.len() ==> #[trigger] r@[k] < request.data.encounters@.len(),
{
    let encounters = &request.data.encounters;
    let ghost p = |i: int| eligible(request.data.encounters@[i], request.region, request.is_deep);
    let mut filtered: Vec<usize> = Vec::new();
    let mut i: usize = 0;
    while i < encounters.len()
        invariant
            encounters == &request.data.encounters,
            i <= encounters@.len(),
            p == (|i: int| eligible(request.data.encounters@[i], request.region, request.is_deep)),
            filtered@ == positions_where(i as nat, p),
        decreases encounters@.len() - i,
    {
        if is_eligible(&encounters[i], request.region, request.is_deep) {
            filtered.push(i);
        }
        i = i + 1;
    }
    proof {
        lemma_positions_where_bounded(encounters@.len(), p);
    }
    filtered
}

/// The first candidate whose id is `encounter_id`.
pub open spec fn find_candidate_spec(
    encounters: Seq<Encounter>,
    candidates: Seq<usize>,
    encounter_id: Seq<char>,
) -> Option<usize>
    decreases candidates.len(),
{
    if candidates.len() == 0 {
        None
    } else if encounters[candidates[0] as int].id@ == encounter_id {
        Some(candidates[0])
    } else {
        find_candidate_spec(encounters, candidates.drop_first(), encounter_id)
    }
}

pub proof fn lemma_find_candidate_in(
    encounters: Seq<Encounter>,
    candidates: Seq<usize>,
    encounter_id: Seq<char>,
)
    ensures
        find_candidate_spec(encounters, candidates, encounter_id) matches Some(c) ==> candidates.contains(c)
            && encounters[c as int].id@ == encounter_id,
    decreases candidates.len(),
{
    if candidates.len() > 0 && encounters[candidates[0] as int].id@ != encounter_id {
        lemma_find_candidate_in(encounters, candidates.drop_first(), encounter_id);
        if let Some(c) = find_candidate_spec(encounters, candidates.drop_first(), encounter_id) {
            let k = choose|k: int| 0 <= k < candidates.drop_first().len() && candidates.drop_first()[k] == c;
            assert(candidates[k + 1] == c);
        }
    }
}

/// The position of the first candidate with the given id.
pub fn find_candidate(
    encounters: &Vec<Encounter>,
    candidates: &Vec<usize>,
    encounter_id: &str,
) -> (r: Option<usize>)
    requires
        forall|k: int| 0 <= k < candidates@.len() ==> #[trigger] candidates@[k] < encounters@.len(),
    ensures
        r == find_candidate_spec(encounters@, candidates@, encounter_id@),
{
    let mut i: usize = 0;
    assert(candidates@.skip(0) =~= candidates@);
    while i < candidates.len()
        invariant
            i <= candidates@.len(),
            forall|k: int| 0 <= k < candidates@.len() ==> #[trigger] candidates@[k] < encounters@.len(),
            find_candidate_spec(encounters@, candidates@, encounter_id@) == find_candidate_spec(
                encounters@,
                candidates@.skip(i as int),
                encounter_id@,
            ),
        decreases candidates@.len() - i,
    {
        assert(candidates@.skip(i as int)[0] == candidates@[i as int]);
        assert(candidates@.skip(i as int).drop_first() =~= candidates@.skip(i + 1));
        if crate::text::str_eq(encounters[candidates[i]].id.as_str(), encounter_id) {
            return Some(candidates[i]);
        }
        i = i + 1;
    }
    None
}

// ---------------------------------------------------------------------------
// Last-seen days and repeat windows
// ---------------------------------------------------------------------------

/// Latest day on which each encounter id was seen.
pub open spec fn seen_map(recent: Seq<RecentEncounter>) -> Map<Seq<char>, u32>
    decreases recent.len(),
{
    if recent.len() == 0 {
        Map::empty()
    } else {
        let m = seen_map(recent.drop_last());
        let e = recent.last();
        if m.contains_key(e.id@) && m[e.id@] >= e.day {
            m
        } else {
            m.insert(e.id@, e.day)
        }
    }
}

/// Map from encounter id to the latest day it was seen.
pub fn build_last_seen_map(recent: &[RecentEncounter]) -> (r: StrMap<u32>)
    ensures
        r@ == seen_map(recent@),
{
    let mut last_seen: StrMap<u32> = StrMap::new();
    let mut i: usize = 0;
    while i < recent.len()
        invariant
            i <= recent@.len(),
            last_seen@ == seen_map(recent@.take(i as int)),
        decreases recent@.len() - i,
    {
        let entry = &recent[i];
        assert(recent@.take(i + 1).drop_last() =~= recent@.take(i as int));
        assert(recent@.take(i + 1).last() == recent@[i as int]);
        match last_seen.get(entry.id.as_str()) {
            Some(day) => {
                if day < entry.day {
                    last_seen.insert(entry.id.clone(), entry.day);
                }
                assert(last_seen@ =~= seen_map(recent@.take(i + 1)));
            },
            None => {
                last_seen.insert(entry.id.clone(), entry.day);
            },
        }
        i = i + 1;
    }
    assert(recent@.take(recent@.len() as int) =~= recent@);
    last_seen
}

/// Days since the encounter was last seen, if it was.
pub open spec fn age_spec(current_day: u32, seen: Map<Seq<char>, u32>, id: Seq<char>) -> Option<u32> {
    if seen.contains_key(id) {
        Some(current_day.saturating_sub(seen[id]))
    } else {
        None
    }
}

/// The encounter was never seen, or not within the repeat window.
pub open spec fn rotation_ready_spec(current_day: u32, seen: Map<Seq<char>, u32>, id: Seq<char>) -> bool {
    match age_spec(current_day, seen, id) {
        None => true,
        Some(age) => age >= ENCOUNTER_REPEAT_WINDOW_DAYS,
    }
}

pub fn rotation_ready(current_day: u32, last_seen: &StrMap<u32>, encounter_id: &str) -> (r: bool)
    ensures
        r == rotation_ready_spec(current_day, last_seen@, encounter_id@),
{
    match last_seen.get(encounter_id) {
        Some(day) => current_day.saturating_sub(day) >= ENCOUNTER_REPEAT_WINDOW_DAYS,
        None => true,
    }
}

// ---------------------------------------------------------------------------
// Primary / fallback split and selection
// ---------------------------------------------------------------------------

/// The encounter belongs to the primary pool of this request.
pub open spec fn in_primary(
    current_day: u32,
    force_rotation: bool,
    seen: Map<Seq<char>, u32>,
    encounter: Encounter,
) -> bool {
    let age = age_spec(current_day, seen, encounter.id@);
    let passes_no_repeat = encounter.chainable || match age {
        None => true,
        Some(days) => days >= ENCOUNTER_REPEAT_WINDOW_DAYS,
    };
    let meets_rotation = encounter.chainable || match age {
        None => true,
        Some(days) => days >= ROTATION_LOOKBACK_DAYS,
    };
    if force_rotation {
        meets_rotation
    } else {
        passes_no_repeat
    }
}

/// Indices into `candidates` of the primary pool.
pub open spec fn primary_spec(request: EncounterRequest, candidates: Seq<usize>, seen: Map<Seq<char>, u32>) -> Seq<usize> {
    positions_where(
        candidates.len(),
        |k: int|
            in_primary(
                request.current_day,
                request.force_rotation,
                seen,
                request.data.encounters@[candidates[k] as int],
            ),
    )
}

/// Indices into `candidates` of the fallback pool.
pub open spec fn fallback_spec(request: EncounterRequest, candidates: Seq<usize>, seen: Map<Seq<char>, u32>) -> Seq<usize> {
    positions_where(
        candidates.len(),
        |k: int|
            !in_primary(
                request.current_day,
                request.force_rotation,
                seen,
                request.data.encounters@[candidates[k] as int],
            ),
    )
}

pub fn categorize_candidates(
    request: &EncounterRequest,
    candidates: &Vec<usize>,
    last_seen: &StrMap<u32>,
) -> (r: (Vec<usize>, Vec<usize>))
    requires
        forall|k: int| 0 <= k < candidates@.len() ==> #[trigger] candidates@[k] < request.data.encounters@.len(),
    ensures
        r.0@ == primary_spec(*request, candidates@, last_seen@),
        r.1@ == fallback_spec(*request, candidates@, last_seen@),
        forall|k: int| 0 <= k < r.0@.len() ==> #[trigger] r.0@[k] < candidates@.len(),
        forall|k: int| 0 <= k < r.1@.len() ==> #[trigger] r.1@[k] < candidates@.len(),
{
    let ghost p = |k: int|
        in_primary(
            request.current_day,
            request.force_rotation,
            last_seen@,
            request.data.encounters@[candidates@[k] as int],
        );
    let ghost q = |k: int|
        !in_primary(
            request.current_day,
            request.force_rotation,
            last_seen@,
            request.data.encounters@[candidates@[k] as int],
        );
    let mut primary: Vec<usize> = Vec::new();
    let mut fallback: Vec<usize> = Vec::new();
    let mut idx: usize = 0;
    while idx < candidates.len()
        invariant
            idx <= candidates@.len(),
            forall|k: int| 0 <= k < candidates@.len() ==> #[trigger] candidates@[k] < request.data.encounters@.len(),
            p == (|k: int|
                in_primary(
                    request.current_day,
                    request.force_rotation,
                    last_seen@,
                    request.data.encounters@[candidates@[k] as int],
                )),
            q == (|k: int|
                !in_primary(
                    request.current_day,
                    request.force_rotation,
                    last_seen@,
                    request.data.encounters@[candidates@[k] as int],
                )),
            primary@ == positions_where(idx as nat, p),
            fallback@ == positions_where(idx as nat, q),
        decreases candidates@.len() - idx,
    {
        let encounter = &request.data.encounters[candidates[idx]];
        let chainable = encounter.chainable;
        let last_day = last_seen.get(encounter.id.as_str());
        let (passes_no_repeat, meets_rotation) = match last_day {
            Some(day) => {
                let age = request.current_day.saturating_sub(day);
                (
                    chainable || age >= ENCOUNTER_REPEAT_WINDOW_DAYS,
                    chainable || age >= ROTATION_LOOKBACK_DAYS,
                )
            },
            None => (true, true),
        };
        let primary_pick = if request.force_rotation {
            meets_rotation
        } else {
            passes_no_repeat
        };
        if primary_pick {
            primary.push(idx);
        } else {
            fallback.push(idx);
        }
        idx = idx + 1;
    }
    proof {
        lemma_positions_where_bounded(candidates@.len(), p);
        lemma_positions_where_bounded(candidates@.len(), q);
    }
    (primary, fallback)
}

/// Pool used for weighting: primary, else fallback, else every candidate.
pub open spec fn selection_spec(primary: Seq<usize>, fallback: Seq<usize>, total: usize) -> Seq<usize> {
    if primary.len() > 0 {
        primary
    } else if fallback.len() > 0 {
        fallback
    } else {
        Seq::new(total as nat, |i: int| i as usize)
    }
}

pub fn determine_selection(
    primary: Vec<usize>,
    fallback: Vec<usize>,
    force_rotation: bool,
    total_candidates: usize,
) -> (r: (Vec<usize>, bool))
    ensures
        r.0@ == selection_spec(primary@, fallback@, total_candidates),
        r.1 == (force_rotation && primary@.len() > 0),
        (forall|k: int| 0 <= k < primary@.len() ==> #[trigger] primary@[k] < total_candidates)
            && (forall|k: int| 0 <= k < fallback@.len() ==> #[trigger] fallback@[k] < total_candidates)
            ==> forall|k: int| 0 <= k < r.0@.len() ==> #[trigger] r.0@[k] < total_candidates,
{
    let rotation_satisfied = force_rotation && primary.len() > 0;
    let mut selection = if primary.len() == 0 {
        fallback
    } else {
        primary
    };
    if selection.len() == 0 {
        let mut all: Vec<usize> = Vec::new();
        let mut i: usize = 0;
        while i < total_candidates
            invariant
                i <= total_candidates,
                all@ == Seq::new(i as nat, |k: int| k as usize),
            decreases total_candidates - i,
        {
            all.push(i);
            i = i + 1;
            assert(all@ =~= Seq::new(i as nat, |k: int| k as usize));
        }
        selection = all;
    }
    (selection, rotation_satisfied)
}

// ---------------------------------------------------------------------------
// Region balance
// ---------------------------------------------------------------------------

/// How many recent encounters happened in each region.
#[derive(Debug, Clone, Copy, PartialEq, Eq, Structural)]
pub struct RegionCounts {
    pub heartland: u32,
    pub rust_belt: u32,
    pub beltway: u32,
}

impl RegionCounts {
    pub open spec fn get_spec(self, region: Region) -> u32 {
        match region {
            Region::Heartland => self.heartland,
            Region::RustBelt => self.rust_belt,
            Region::Beltway => self.beltway,
        }
    }

    /// Count for a region (zero when none were recorded).
    pub fn get(&self, region: Region) -> (r: u32)
        ensures
            r == self.get_spec(region),
    {
        match region {
            Region::Heartland => self.heartland,
            Region::RustBelt => self.rust_belt,
            Region::Beltway => self.beltway,
        }
    }
}

/// Number of recent encounters recorded in `region`.
pub open spec fn region_count(recent: Seq<RecentEncounter>, region: Region) -> nat
    decreases recent.len(),
{
    if recent.len() == 0 {
        0
    } else {
        region_count(recent.drop_last(), region) + if recent.last().region == Some(region) {
            1nat
        } else {
            0nat
        }
    }
}

pub proof fn lemma_region_count_bounded(recent: Seq<RecentEncounter>, region: Region)
    ensures
        region_count(recent, region) <= recent.len(),
    decreases recent.len(),
{
    if recent.len() > 0 {
        lemma_region_count_bounded(recent.drop_last(), region);
    }
}

pub fn build_recent_region_counts(recent: &[RecentEncounter]) -> (r: RegionCounts)
    requires
        recent@.len() <= u32::MAX,
    ensures
        forall|region: Region| #[trigger] r.get_spec(region) == region_count(recent@, region),
        r == counts_spec(recent@),
{
    let mut counts = RegionCounts { heartland: 0, rust_belt: 0, beltway: 0 };
    let mut i: usize = 0;
    while i < recent.len()
        invariant
            i <= recent@.len(),
            recent@.len() <= u32::MAX,
            forall|region: Region| #[trigger] counts.get_spec(region) == region_count(recent@.take(i as int), region),
        decreases recent@.len() - i,
    {
        let ghost prefix = recent@.take(i as int);
        let ghost next = recent@.take(i + 1);
        assert(next.drop_last() =~= prefix);
        assert(next.last() == recent@[i as int]);
        proof {
            lemma_region_count_bounded(prefix, Region::Heartland);
            lemma_region_count_bounded(prefix, Region::RustBelt);
            lemma_region_count_bounded(prefix, Region::Beltway);
            assert(counts.get_spec(Region::Heartland) == region_count(prefix, Region::Heartland));
            assert(counts.get_spec(Region::RustBelt) == region_count(prefix, Region::RustBelt));
            assert(counts.get_spec(Region::Beltway) == region_count(prefix, Region::Beltway));
        }
        match recent[i].region {
            Some(Region::Heartland) => counts.heartland = counts.heartland + 1,
            Some(Region::RustBelt) => counts.rust_belt = counts.rust_belt + 1,
            Some(Region::Beltway) => counts.beltway = counts.beltway + 1,
            None => {},
        }
        assert forall|region: Region| #[trigger] counts.get_spec(region) == region_count(next, region) by {
            assert(region_count(next, region) == region_count(prefix, region) + if recent@[i as int].region == Some(region) { 1nat } else { 0nat });
        }
        i = i + 1;
    }
    assert(recent@.take(recent@.len() as int) =~= recent@);
    proof {
        lemma_region_count_bounded(recent@, Region::Heartland);
        lemma_region_count_bounded(recent@, Region::RustBelt);
        lemma_region_count_bounded(recent@, Region::Beltway);
        assert(counts.get_spec(Region::Heartland) == region_count(recent@, Region::Heartland));
        assert(counts.get_spec(Region::RustBelt) == region_count(recent@, Region::RustBelt));
        assert(counts.get_spec(Region::Beltway) == region_count(recent@, Region::Beltway));
    }
    counts
}

/// Region counts of the recent encounters.
pub open spec fn counts_spec(recent: Seq<RecentEncounter>) -> RegionCounts {
    RegionCounts {
        heartland: region_count(recent, Region::Heartland) as u32,
        rust_belt: region_count(recent, Region::RustBelt) as u32,
        beltway: region_count(recent, Region::Beltway) as u32,
    }
}

/// Smallest count over the three regions.
pub open spec fn global_min_spec(counts: RegionCounts) -> u32 {
    let a = counts.heartland;
    let b = counts.rust_belt;
    let c = counts.beltway;
    let ab = if b < a { b } else { a };
    if c < ab { c } else { ab }
}

pub fn global_min_region_count(counts: &RegionCounts) -> (r: u32)
    ensures
        r == global_min_spec(*counts),
{
    let a = counts.heartland;
    let b = counts.rust_belt;
    let c = counts.beltway;
    let ab = if b < a { b } else { a };
    if c < ab { c } else { ab }
}

/// Smallest count over the listed regions (zero for none).
pub open spec fn min_count_over(regions: Seq<Region>, counts: RegionCounts) -> u32
    decreases regions.len(),
{
    if regions.len() == 0 {
        0
    } else if regions.len() == 1 {
        counts.get_spec(regions[0])
    } else {
        let rest = min_count_over(regions.drop_last(), counts);
        let last = counts.get_spec(regions.last());
        if last < rest { last } else { rest }
    }
}

fn min_count_of(regions: &Vec<Region>, counts: &RegionCounts) -> (r: u32)
    ensures
        r == min_count_over(regions@, *counts),
{
    if regions.len() == 0 {
        return 0;
    }
    let mut best = counts.get(regions[0]);
    let mut i: usize = 1;
    assert(regions@.take(1).len() == 1);
    while i < regions.len()
        invariant
            1 <= i <= regions@.len(),
            best == min_count_over(regions@.take(i as int), *counts),
        decreases regions@.len() - i,
    {
        assert(regions@.take(i + 1).drop_last() =~= regions@.take(i as int));
        let c = counts.get(regions[i]);
        if c < best {
            best = c;
        }
        i = i + 1;
    }
    assert(regions@.take(regions@.len() as int) =~= regions@);
    best
}

// ---------------------------------------------------------------------------
// Weights
// ---------------------------------------------------------------------------

/// Foraging encounters: "forage" in the lower-cased id, or "forage",
/// "scavenge" or "gather" in the lower-cased name.
pub open spec fn is_forage_spec(encounter: Encounter) -> bool {
    let id = unicode_lowercase(encounter.id@);
    let name = unicode_lowercase(encounter.name@);
    ||| contains_spec(id, "forage"@)
    ||| contains_spec(name, "forage"@)
    ||| contains_spec(name, "scavenge"@)
    ||| contains_spec(name, "gather"@)
}

pub fn is_forage(encounter: &Encounter) -> (r: bool)
    ensures
        r == is_forage_spec(*encounter),
{
    let id_lower = to_lowercase(encounter.id.as_str());
    let name_lower = to_lowercase(encounter.name.as_str());
    contains_str(id_lower.as_str(), "forage") || contains_str(name_lower.as_str(), "forage")
        || contains_str(name_lower.as_str(), "scavenge") || contains_str(
        name_lower.as_str(),
        "gather",
    )
}

/// `u32` multiplication that stops at `u32::MAX`.
pub open spec fn sat_mul_u32(a: u32, b: u32) -> u32 {
    if a * b > u32::MAX {
        u32::MAX
    } else {
        (a * b) as u32
    }
}

fn saturating_mul_u32(a: u32, b: u32) -> (r: u32)
    ensures
        r == sat_mul_u32(a, b),
{
    match a.checked_mul(b) {
        Some(v) => v,
        None => u32::MAX,
    }
}

/// Weight bonus for foraging encounters when the party is starving.
pub open spec fn starvation_bonus_spec(request: EncounterRequest) -> u32 {
    if request.starving || request.malnutrition_level > 0 {
        (10 + request.malnutrition_level * 5) as u32
    } else {
        0
    }
}

/// The conservative Deep End policy boosts encounters from the least visited regions.
pub open spec fn region_boost_applies(
    request: EncounterRequest,
    counts: Option<RegionCounts>,
    region_min: u32,
    encounter: Encounter,
) -> bool {
    match counts {
        Some(c) => {
            let regions = encounter_regions_spec(encounter, request.region);
            &&& request.is_deep
            &&& request.policy == Some(PolicyKind::Conservative)
            &&& regions.len() > 0
            &&& min_count_over(regions, c) <= region_min
        },
        None => false,
    }
}

/// Selection weight of one encounter.
pub open spec fn weight_spec(
    request: EncounterRequest,
    seen: Map<Seq<char>, u32>,
    counts: Option<RegionCounts>,
    region_min: u32,
    encounter: Encounter,
) -> u32 {
    let bonus = starvation_bonus_spec(request);
    let w0 = if encounter.weight >= 1 {
        encounter.weight
    } else {
        1u32
    };
    let w1 = if bonus > 0 && is_forage_spec(encounter) {
        w0.saturating_add(bonus)
    } else {
        w0
    };
    let w2 = if encounter.chainable {
        w1.saturating_sub(2)
    } else {
        w1
    };
    let w3 = match age_spec(request.current_day, seen, encounter.id@) {
        Some(age) => {
            let days = if age >= 1 {
                age
            } else {
                1u32
            };
            w2.saturating_add(sat_mul_u32(days, 2))
        },
        None => w2.saturating_add(ROTATION_LOOKBACK_DAYS).saturating_add(12),
    };
    let w4 = if region_boost_applies(request, counts, region_min, encounter) {
        let boosted = (sat_mul_u32(w3, 110).saturating_add(99) / 100) as u32;
        let bumped = w3.saturating_add(1);
        if boosted >= bumped {
            boosted
        } else {
            bumped
        }
    } else {
        w3
    };
    if w4 >= 1 {
        w4
    } else {
        1
    }
}

/// The encounter at a position of the selection.
pub open spec fn selected_encounter(
    request: EncounterRequest,
    candidates: Seq<usize>,
    idx: usize,
) -> Encounter {
    request.data.encounters@[candidates[idx as int] as int]
}

/// Weighted selection pool: each selected position with its weight.
pub open spec fn weights_spec(
    request: EncounterRequest,
    candidates: Seq<usize>,
    selection: Seq<usize>,
    seen: Map<Seq<char>, u32>,
    counts: Option<RegionCounts>,
    region_min: u32,
) -> Seq<(usize, u32)> {
    selection.map_values(
        |idx: usize|
            (
                idx,
                weight_spec(
                    request,
                    seen,
                    counts,
                    region_min,
                    selected_encounter(request, candidates, idx),
                ),
            ),
    )
}

/// Selection weight of one encounter under this request.
fn encounter_weight(
    encounter: &Encounter,
    request: &EncounterRequest,
    last_seen: &StrMap<u32>,
    region_counts: Option<RegionCounts>,
    region_min: u32,
    starvation_bonus: u32,
) -> (r: u32)
    requires
        starvation_bonus == starvation_bonus_spec(*request),
    ensures
        r == weight_spec(*request, last_seen@, region_counts, region_min, *encounter),
{
    let mut weight: u32 = if encounter.weight >= 1 { encounter.weight } else { 1 };
    if starvation_bonus > 0 && is_forage(encounter) {
        weight = weight.saturating_add(starvation_bonus);
    }
    if encounter.chainable {
        weight = weight.saturating_sub(2);
    }
    match last_seen.get(encounter.id.as_str()) {
        Some(last_day) => {
            let age = request.current_day.saturating_sub(last_day);
            let days = if age >= 1 { age } else { 1 };
            weight = weight.saturating_add(saturating_mul_u32(days, 2));
        },
        None => {
            weight = weight.saturating_add(ROTATION_LOOKBACK_DAYS).saturating_add(12);
        },
    }
    if let Some(counts) = region_counts {
        if request.is_deep && request.policy == Some(PolicyKind::Conservative) {
            let regions = encounter_regions(encounter, request.region);
            if regions.len() > 0 {
                let encounter_min = min_count_of(&regions, &counts);
                if encounter_min <= region_min {
                    let boosted = saturating_mul_u32(weight, 110).saturating_add(99) / 100;
                    let bumped = weight.saturating_add(1);
                    weight = if boosted >= bumped { boosted } else { bumped };
                }
            }
        }
    }
    if weight >= 1 {
    weight
    } else {
    1
    }
}

pub fn build_weights(
    selection: Vec<usize>,
    candidates: &Vec<usize>,
    request: &EncounterRequest,
    last_seen: &StrMap<u32>,
    region_counts: Option<RegionCounts>,
    region_min: u32,
) -> (r: Vec<(usize, u32)>)
    requires
        forall|k: int| 0 <= k < selection@.len() ==> #[trigger] selection@[k] < candidates@.len(),
        forall|k: int| 0 <= k < candidates@.len() ==> #[trigger] candidates@[k] < request.data.encounters@.len(),
        10 + request.malnutrition_level * 5 <= u32::MAX,
    ensures
        r@ == weights_spec(*request, candidates@, selection@, last_seen@, region_counts, region_min),
{
    let mut weighted: Vec<(usize, u32)> = Vec::new();
    let starvation_bonus: u32 = if request.starving || request.malnutrition_level > 0 {
        10 + (request.malnutrition_level * 5)
    } else {
        0
    };
    let mut i: usize = 0;
    while i < selection.len()
        invariant
            i <= selection@.len(),
            forall|k: int| 0 <= k < selection@.len() ==> #[trigger] selection@[k] < candidates@.len(),
            forall|k: int| 0 <= k < candidates@.len() ==> #[trigger] candidates@[k] < request.data.encounters@.len(),
            starvation_bonus == starvation_bonus_spec(*request),
            weighted@ == weights_spec(*request, candidates@, selection@.take(i as int), last_seen@, region_counts, region_min),
        decreases selection@.len() - i,
    {
        let idx = selection[i];
        let encounter = &request.data.encounters[candidates[idx]];
        let final_weight = encounter_weight(
            encounter,
            request,
            last_seen,
            region_counts,
            region_min,
            starvation_bonus,
        );
        weighted.push((idx, final_weight));
        proof {
            assert(selection@.take(i + 1) =~= selection@.take(i as int).push(idx));
        }
        assert(weighted@ =~= weights_spec(*request, candidates@, selection@.take(i + 1), last_seen@, region_counts, region_min));
        i = i + 1;
    }
    assert(selection@.take(selection@.len() as int) =~= selection@);
    weighted
}

/// Sum of the weights.
pub open spec fn weight_total(weights: Seq<(usize, u32)>) -> nat
    decreases weights.len(),
{
    if weights.len() == 0 {
        0
    } else {
        weight_total(weights.drop_last()) + (weights.last().1 as nat)
    }
}

pub proof fn lemma_weight_total_prefix(weights: Seq<(usize, u32)>, i: int)
    requires
        0 <= i <= weights.len(),
    ensures
        weight_total(weights.take(i)) <= weight_total(weights),
    decreases weights.len(),
{
    if i < weights.len() {
        assert(weights.drop_last().take(i) =~= weights.take(i));
        lemma_weight_total_prefix(weights.drop_last(), i);
    } else {
        assert(weights.take(i) =~= weights);
    }
}

/// The entry picked by a roll: the first whose cumulative weight exceeds it.
pub open spec fn pick_weighted(weights: Seq<(usize, u32)>, roll: int) -> Option<usize>
    decreases weights.len(),
{
    if weights.len() == 0 {
        None
    } else if roll < weights[0].1 {
        Some(weights[0].0)
    } else {
        pick_weighted(weights.drop_first(), roll - weights[0].1)
    }
}

pub proof fn lemma_pick_weighted_found(weights: Seq<(usize, u32)>, roll: int)
    requires
        0 <= roll < weight_total(weights),
    ensures
        pick_weighted(weights, roll) is Some,
    decreases weights.len(),
{
    if weights.len() > 0 && roll >= weights[0].1 {
        lemma_weight_total_front(weights);
        lemma_pick_weighted_found(weights.drop_first(), roll - weights[0].1);
    }
}

pub proof fn lemma_weight_total_front(weights: Seq<(usize, u32)>)
    requires
        weights.len() > 0,
    ensures
        weight_total(weights) == weights[0].1 + weight_total(weights.drop_first()),
    decreases weights.len(),
{
    if weights.len() > 1 {
        lemma_weight_total_front(weights.drop_last());
        assert(weights.drop_last().drop_first() =~= weights.drop_first().drop_last());
        assert(weights.drop_first().last() == weights.last());
        assert(weights.drop_last()[0] == weights[0]);
        let df = weights.drop_first();
        assert(weight_total(df) == weight_total(df.drop_last()) + (df.last().1 as nat));
        assert(weight_total(weights) == weight_total(weights.drop_last()) + (weights.last().1 as nat));
    } else {
        assert(weights.drop_first().len() == 0);
        assert(weights.drop_last().len() == 0);
        assert(weight_total(weights.drop_first()) == 0);
        assert(weight_total(weights.drop_last()) == 0);
        assert(weights.last() == weights[0]);
    }
}

/// Resolves a roll against the weights (the position picked, with the roll).
pub fn pick_with_roll(weights: &Vec<(usize, u32)>, roll: u32) -> (r: Option<(usize, u32)>)
    requires
        weight_total(weights@) <= u32::MAX,
    ensures
        r == (match pick_weighted(weights@, roll as int) {
            Some(idx) => Some((idx, roll)),
            None => None,
        }),
{
    let mut current: u32 = 0;
    let mut i: usize = 0;
    assert(weights@.skip(0) =~= weights@);
    assert(weights@.take(0) =~= Seq::<(usize, u32)>::empty());
    while i < weights.len()
        invariant
            i <= weights@.len(),
            weight_total(weights@) <= u32::MAX,
            current == weight_total(weights@.take(i as int)),
            current <= roll,
            pick_weighted(weights@, roll as int) == pick_weighted(weights@.skip(i as int), roll - current),
        decreases weights@.len() - i,
    {
        proof {
            assert(weights@.take(i + 1).drop_last() =~= weights@.take(i as int));
            lemma_weight_total_prefix(weights@, i + 1);
            assert(weights@.skip(i as int)[0] == weights@[i as int]);
            assert(weights@.skip(i as int).drop_first() =~= weights@.skip(i + 1));
        }
        let (idx, weight) = weights[i];
        current = current + weight;
        if roll < current {
            return Some((idx, roll));
        }
        i = i + 1;
    }
    None
}

/// Draws a roll below the total weight and resolves it; `None` when all weights are zero.
pub fn choose_weighted(weights: &Vec<(usize, u32)>, rng: &mut SmallRng) -> (r: Option<(usize, u32)>)
    requires
        weight_total(weights@) <= u32::MAX,
    ensures
        weight_total(weights@) == 0 ==> r is None && *final(rng) == *old(rng),
        weight_total(weights@) > 0 ==> (r matches Some((idx, roll)) && roll < weight_total(weights@)
            && pick_weighted(weights@, roll as int) == Some(idx)),
{
    let mut total: u32 = 0;
    let mut i: usize = 0;
    assert(weights@.take(0) =~= Seq::<(usize, u32)>::empty());
    while i < weights.len()
        invariant
            i <= weights@.len(),
            weight_total(weights@) <= u32::MAX,
            total == weight_total(weights@.take(i as int)),
        decreases weights@.len() - i,
    {
        proof {
            assert(weights@.take(i + 1).drop_last() =~= weights@.take(i as int));
            lemma_weight_total_prefix(weights@, i + 1);
        }
        total = total + weights[i].1;
        i = i + 1;
    }
    assert(weights@.take(weights@.len() as int) =~= weights@);
    if total == 0 {
        return None;
    }
    let roll = gen_range_u32(rng, 0, total);
    proof {
        lemma_pick_weighted_found(weights@, roll as int);
    }
    pick_with_roll(weights, roll)
}

// ---------------------------------------------------------------------------
// Rotation backlog
// ---------------------------------------------------------------------------

/// Order of the rotation backlog: longest unseen first, then by id.
pub open spec fn backlog_leq(a: (Seq<char>, u32), b: (Seq<char>, u32)) -> bool {
    a.1 > b.1 || (a.1 == b.1 && !lex_lt(b.0, a.0))
}

pub proof fn lemma_backlog_leq_preorder()
    ensures
        forall|a: (Seq<char>, u32)| #[trigger] backlog_leq(a, a),
        forall|a: (Seq<char>, u32), b: (Seq<char>, u32)| #[trigger] backlog_leq(a, b) || #[trigger] backlog_leq(b, a),
        forall|a: (Seq<char>, u32), b: (Seq<char>, u32), c: (Seq<char>, u32)|
            #[trigger] backlog_leq(a, b) && #[trigger] backlog_leq(b, c) ==> backlog_leq(a, c),
{
    assert forall|a: (Seq<char>, u32)| #[trigger] backlog_leq(a, a) by {
        lemma_lex_irreflexive(a.0);
    }
    assert forall|a: (Seq<char>, u32), b: (Seq<char>, u32)| #[trigger] backlog_leq(a, b) || #[trigger] backlog_leq(b, a) by {
        lemma_lex_asymmetric(a.0, b.0);
    }
    assert forall|a: (Seq<char>, u32), b: (Seq<char>, u32), c: (Seq<char>, u32)|
        #[trigger] backlog_leq(a, b) && #[trigger] backlog_leq(b, c) implies backlog_leq(a, c) by {
        lemma_lex_negative_transitive(a.0, b.0, c.0);
    }
}

/// Backlog key of an encounter: its id and days since seen (`u32::MAX` if never).
pub open spec fn backlog_key(current_day: u32, seen: Map<Seq<char>, u32>, encounter: Encounter) -> (Seq<char>, u32) {
    (
        encounter.id@,
        match age_spec(current_day, seen, encounter.id@) {
            Some(age) => age,
            None => u32::MAX,
        },
    )
}

/// Keys of the first `n` candidates that are not chainable, in candidate order.
pub open spec fn backlog_items(
    request: EncounterRequest,
    candidates: Seq<usize>,
    seen: Map<Seq<char>, u32>,
    n: nat,
) -> Seq<(Seq<char>, u32)>
    decreases n,
{
    if n == 0 {
        Seq::empty()
    } else {
        let rest = backlog_items(request, candidates, seen, (n - 1) as nat);
        let encounter = request.data.encounters@[candidates[n - 1] as int];
        if encounter.chainable {
            rest
        } else {
            rest.push(backlog_key(request.current_day, seen, encounter))
        }
    }
}

/// The backlog holds exactly the non-chainable candidates' ids, ordered by `backlog_leq`.
pub open spec fn is_backlog(
    request: EncounterRequest,
    candidates: Seq<usize>,
    seen: Map<Seq<char>, u32>,
    ids: Seq<Seq<char>>,
) -> bool {
    exists|keys: Seq<(Seq<char>, u32)>|
        {
            &&& keys.to_multiset() == backlog_items(request, candidates, seen, candidates.len()).to_multiset()
            &&& sorted_by(keys, |a: (Seq<char>, u32), b: (Seq<char>, u32)| backlog_leq(a, b))
            &&& #[trigger] key_ids(keys) == ids
        }
}

/// Ids of backlog keys.
pub open spec fn key_ids(keys: Seq<(Seq<char>, u32)>) -> Seq<Seq<char>> {
    keys.map_values(|k: (Seq<char>, u32)| k.0)
}

/// Character views of a list of strings.
pub open spec fn string_views(s: Seq<String>) -> Seq<Seq<char>> {
    s.map_values(|x: String| x@)
}

/// Key views of the sorted list built during backlog construction.
pub open spec fn key_views(s: Seq<(String, u32)>) -> Seq<(Seq<char>, u32)> {
    s.map_values(|x: (String, u32)| (x.0@, x.1))
}

fn backlog_leq_exec(a: &(String, u32), b: &(String, u32)) -> (r: bool)
    ensures
        r == backlog_leq((a.0@, a.1), (b.0@, b.1)),
{
    a.1 > b.1 || (a.1 == b.1 && !str_lt(b.0.as_str(), a.0.as_str()))
}

pub proof fn lemma_multiset_insert_at<A>(s: Seq<A>, j: int, x: A)
    requires
        0 <= j <= s.len(),
    ensures
        s.insert(j, x).to_multiset() =~= s.to_multiset().insert(x),
{
    broadcast use vstd::seq_lib::group_to_multiset_ensures;
    broadcast use vstd::multiset::group_multiset_axioms;

    let t = s.insert(j, x);
    assert(t.remove(j) =~= s);
    assert(t[j] == x);
    assert(t.to_multiset().remove(x) =~= s.to_multiset());
    assert(t.to_multiset().count(x) > 0);
}

/// Inserts `item` after every entry ordered before or with it.
fn insert_sorted(sorted: &mut Vec<(String, u32)>, item: (String, u32))
    requires
        sorted_by(key_views(old(sorted)@), |a: (Seq<char>, u32), b: (Seq<char>, u32)| backlog_leq(a, b)),
    ensures
        sorted_by(key_views(final(sorted)@), |a: (Seq<char>, u32), b: (Seq<char>, u32)| backlog_leq(a, b)),
        key_views(final(sorted)@).to_multiset() == key_views(old(sorted)@).to_multiset().insert(
            (item.0@, item.1),
        ),
{
    let ghost leq = |a: (Seq<char>, u32), b: (Seq<char>, u32)| backlog_leq(a, b);
    let ghost y = (item.0@, item.1);
    let ghost old_keys = key_views(sorted@);
    proof {
        lemma_backlog_leq_preorder();
    }
    let mut j: usize = 0;
    while j < sorted.len() && backlog_leq_exec(&sorted[j], &item)
        invariant
            j <= sorted@.len(),
            old_keys == key_views(sorted@),
            y == (item.0@, item.1),
            forall|k: int| 0 <= k < j ==> backlog_leq(#[trigger] old_keys[k], y),
        decreases sorted@.len() - j,
    {
        j = j + 1;
    }
    proof {
        if j < sorted@.len() {
            assert(!backlog_leq(old_keys[j as int], y));
            assert(backlog_leq(y, old_keys[j as int]));
        }
    }
    sorted.insert(j, item);
    proof {
        let new_keys = key_views(sorted@);
        assert(new_keys =~= old_keys.insert(j as int, y));
        assert forall|a: int, b: int| 0 <= a < b < new_keys.len() implies #[trigger] leq(new_keys[a], new_keys[b]) by {
            if b < j {
                assert(new_keys[a] == old_keys[a] && new_keys[b] == old_keys[b]);
            } else if b == j {
                assert(new_keys[a] == old_keys[a]);
            } else if a == j {
                assert(new_keys[b] == old_keys[b - 1]);
                if b - 1 > j {
                    assert(leq(old_keys[j as int], old_keys[b - 1]));
                }
            } else if a < j {
                assert(new_keys[a] == old_keys[a] && new_keys[b] == old_keys[b - 1]);
            } else {
                assert(new_keys[a] == old_keys[a - 1] && new_keys[b] == old_keys[b - 1]);
            }
        }
        lemma_multiset_insert_at(old_keys, j as int, y);
    }
}

/// Rotation order for forced picks: non-chainable candidates, longest unseen first.
pub fn build_rotation_backlog(
    request: &EncounterRequest,
    candidates: &Vec<usize>,
    last_seen: &StrMap<u32>,
) -> (r: VecDeque<String>)
    requires
        forall|k: int| 0 <= k < candidates@.len() ==> #[trigger] candidates@[k] < request.data.encounters@.len(),
    ensures
        is_backlog(*request, candidates@, last_seen@, string_views(r@)),
{
    let ghost leq = |a: (Seq<char>, u32), b: (Seq<char>, u32)| backlog_leq(a, b);
    let mut sorted: Vec<(String, u32)> = Vec::new();
    let mut i: usize = 0;
    assert(key_views(sorted@) =~= Seq::<(Seq<char>, u32)>::empty());
    while i < candidates.len()
        invariant
            i <= candidates@.len(),
            forall|k: int| 0 <= k < candidates@.len() ==> #[trigger] candidates@[k] < request.data.encounters@.len(),
            sorted_by(key_views(sorted@), leq),
            leq == (|a: (Seq<char>, u32), b: (Seq<char>, u32)| backlog_leq(a, b)),
            key_views(sorted@).to_multiset() == backlog_items(*request, candidates@, last_seen@, i as nat).to_multiset(),
        decreases candidates@.len() - i,
    {
        let encounter = &request.data.encounters[candidates[i]];
        if !encounter.chainable {
            let age: u32 = match last_seen.get(encounter.id.as_str()) {
                Some(day) => request.current_day.saturating_sub(day),
                None => u32::MAX,
            };
            let ghost before = backlog_items(*request, candidates@, last_seen@, i as nat);
            insert_sorted(&mut sorted, (encounter.id.clone(), age));
            proof {
                broadcast use vstd::seq_lib::group_to_multiset_ensures;

                assert(backlog_items(*request, candidates@, last_seen@, (i + 1) as nat) == before.push(
                    backlog_key(request.current_day, last_seen@, *encounter),
                ));
            }
        }
        i = i + 1;
    }
    let mut out: VecDeque<String> = VecDeque::new();
    let mut k: usize = 0;
    while k < sorted.len()
        invariant
            k <= sorted@.len(),
            string_views(out@) == key_ids(key_views(sorted@).take(k as int)),
        decreases sorted@.len() - k,
    {
        let ghost prev = out@;
        let id = sorted[k].0.clone();
        assert(id@ == key_views(sorted@)[k as int].0);
        out.push_back(id);
        assert(key_views(sorted@).take(k + 1) =~= key_views(sorted@).take(k as int).push(key_views(sorted@)[k as int]));
        assert(string_views(out@) =~= string_views(prev).push(id@));
        k = k + 1;
        assert(string_views(out@) =~= key_ids(key_views(sorted@).take(k as int)));
    }
    proof {
        let keys = key_views(sorted@);
        assert(keys.take(keys.len() as int) =~= keys);
        assert(key_ids(keys) == string_views(out@));
    }
    out
}

// ---------------------------------------------------------------------------
// Rotation queue
// ---------------------------------------------------------------------------

/// A queued id names a candidate that is out of its repeat window.
pub open spec fn queue_entry_ready(
    request: EncounterRequest,
    candidates: Seq<usize>,
    seen: Map<Seq<char>, u32>,
    id: Seq<char>,
) -> bool {
    match find_candidate_spec(request.data.encounters@, candidates, id) {
        Some(c) => rotation_ready_spec(
            request.current_day,
            seen,
            request.data.encounters@[c as int].id@,
        ),
        None => false,
    }
}

/// `j` is the first queue position whose entry is ready.
pub open spec fn is_first_ready(
    request: EncounterRequest,
    candidates: Seq<usize>,
    seen: Map<Seq<char>, u32>,
    queue: Seq<Seq<char>>,
    j: int,
) -> bool {
    &&& 0 <= j < queue.len()
    &&& queue_entry_ready(request, candidates, seen, queue[j])
    &&& forall|k: int| 0 <= k < j ==> !queue_entry_ready(request, candidates, seen, #[trigger] queue[k])
}

/// `j` is the first queue position whose entry names a candidate.
pub open spec fn is_first_found(
    encounters: Seq<Encounter>,
    candidates: Seq<usize>,
    queue: Seq<Seq<char>>,
    j: int,
) -> bool {
    &&& 0 <= j < queue.len()
    &&& find_candidate_spec(encounters, candidates, queue[j]) is Some
    &&& forall|k: int| 0 <= k < j ==> find_candidate_spec(encounters, candidates, #[trigger] queue[k]) is None
}

/// Outcome of a ready pick from queue `q`: the first ready entry is taken and
/// the entries before it cycle to the back; with none ready the queue stays.
pub open spec fn ready_result(
    request: EncounterRequest,
    candidates: Seq<usize>,
    seen: Map<Seq<char>, u32>,
    q: Seq<Seq<char>>,
    r: Option<usize>,
    final_queue: Seq<Seq<char>>,
) -> bool {
    match r {
        Some(c) => exists|j: int|
            {
                &&& #[trigger] is_first_ready(request, candidates, seen, q, j)
                &&& find_candidate_spec(request.data.encounters@, candidates, q[j]) == Some(c)
                &&& final_queue == q.subrange(j + 1, q.len() as int) + q.subrange(0, j)
            },
        None => {
            &&& forall|j: int| 0 <= j < q.len() ==> !queue_entry_ready(request, candidates, seen, #[trigger] q[j])
            &&& final_queue == q
        },
    }
}

/// Takes the first ready entry out of the queue, cycling the entries before it
/// to the back; the queue is unchanged when no entry is ready.
pub fn try_pick_ready_from_queue(
    request: &EncounterRequest,
    rotation_queue: &mut VecDeque<String>,
    candidates: &Vec<usize>,
    last_seen: &StrMap<u32>,
) -> (r: Option<usize>)
    requires
        forall|k: int| 0 <= k < candidates@.len() ==> #[trigger] candidates@[k] < request.data.encounters@.len(),
    ensures
        ready_result(*request, candidates@, last_seen@, string_views(old(rotation_queue)@), r, string_views(final(rotation_queue)@)),
        r matches Some(c) ==> c < request.data.encounters@.len(),
{
    let ghost q = string_views(rotation_queue@);
    let queue_len = rotation_queue.len();
    let mut t: usize = 0;
    assert(q.subrange(0, queue_len as int) + q.subrange(0, 0) =~= q);
    while t < queue_len
        invariant
            q == string_views(old(rotation_queue)@),
            t <= queue_len,
            queue_len == q.len(),
            forall|k: int| 0 <= k < candidates@.len() ==> #[trigger] candidates@[k] < request.data.encounters@.len(),
            string_views(rotation_queue@) == q.subrange(t as int, queue_len as int) + q.subrange(0, t as int),
            forall|k: int| 0 <= k < t ==> !queue_entry_ready(*request, candidates@, last_seen@, #[trigger] q[k]),
        decreases queue_len - t,
    {
        let ghost before = rotation_queue@;
        let next = rotation_queue.pop_front();
        let next_id = match next {
            Some(id) => id,
            None => {
                assert(string_views(before).len() > 0);
                return None;
            },
        };
        proof {
            assert(string_views(before) == q.subrange(t as int, queue_len as int) + q.subrange(0, t as int));
            assert(string_views(before)[0] == before[0]@);
            assert(string_views(before)[0] == q[t as int]);
            assert(string_views(rotation_queue@) =~= string_views(before).drop_first());
        }
        let found = find_candidate(&request.data.encounters, candidates, next_id.as_str());
        if let Some(c) = found {
            proof {
                lemma_find_candidate_in(request.data.encounters@, candidates@, next_id@);
                let k = choose|k: int| 0 <= k < candidates@.len() && candidates@[k] == c;
                assert(candidates@[k] < request.data.encounters@.len());
            }
            if rotation_ready(request.current_day, last_seen, request.data.encounters[c].id.as_str()) {
                proof {
                    assert(is_first_ready(*request, candidates@, last_seen@, q, t as int));
                    assert(string_views(rotation_queue@) =~= string_views(before).drop_first());
                    assert(string_views(rotation_queue@) =~= q.subrange(t + 1, queue_len as int) + q.subrange(0, t as int));
                    assert(find_candidate_spec(request.data.encounters@, candidates@, q[t as int]) == Some(c));
                }
                return Some(c);
            }
        }
        let ghost popped = rotation_queue@;
        let ghost id_view = next_id@;
        rotation_queue.push_back(next_id);
        proof {
            assert(string_views(rotation_queue@) =~= string_views(popped).push(id_view));
            assert(string_views(rotation_queue@) =~= q.subrange(t + 1, queue_len as int) + q.subrange(0, t + 1));
        }
        t = t + 1;
    }
    proof {
        assert(q.subrange(queue_len as int, queue_len as int) + q.subrange(0, queue_len as int) =~= q);
    }
    None
}

/// Takes entries off the queue until one names a candidate (rebuilding an
/// empty queue from the backlog first); only when rotation is forced.
pub fn try_pick_forced_from_queue(
    request: &EncounterRequest,
    rotation_queue: &mut VecDeque<String>,
    candidates: &Vec<usize>,
    last_seen: &StrMap<u32>,
) -> (r: Option<usize>)
    requires
        forall|k: int| 0 <= k < candidates@.len() ==> #[trigger] candidates@[k] < request.data.encounters@.len(),
    ensures
        !request.force_rotation ==> r is None && final(rotation_queue)@ == old(rotation_queue)@,
        r matches Some(c) ==> c < request.data.encounters@.len(),
        request.force_rotation ==> exists|q: Seq<Seq<char>>|
            {
                &&& (old(rotation_queue)@.len() == 0 ==> is_backlog(*request, candidates@, last_seen@, q))
                &&& (old(rotation_queue)@.len() > 0 ==> q == string_views(old(rotation_queue)@))
                &&& #[trigger] forced_result(request.data.encounters@, candidates@, q, r, string_views(final(rotation_queue)@))
            },
{
    if !request.force_rotation {
        return None;
    }
    if rotation_queue.len() == 0 {
        *rotation_queue = build_rotation_backlog(request, candidates, last_seen);
    }
    let ghost q = string_views(rotation_queue@);
    let ghost n = q.len();
    let start_len = rotation_queue.len();
    assert(n == start_len);
    let mut t: usize = 0;
    assert(q.subrange(0, n as int) =~= q);
    while rotation_queue.len() > 0
        invariant
            request.force_rotation,
            old(rotation_queue)@.len() == 0 ==> is_backlog(*request, candidates@, last_seen@, q),
            old(rotation_queue)@.len() > 0 ==> q == string_views(old(rotation_queue)@),
            n <= usize::MAX,
            t <= n,
            n == q.len(),
            forall|k: int| 0 <= k < candidates@.len() ==> #[trigger] candidates@[k] < request.data.encounters@.len(),
            string_views(rotation_queue@) == q.subrange(t as int, n as int),
            forall|k: int| 0 <= k < t ==> find_candidate_spec(request.data.encounters@, candidates@, #[trigger] q[k]) is None,
        decreases n - t,
    {
        let ghost before = rotation_queue@;
        let next = rotation_queue.pop_front();
        let next_id = match next {
            Some(id) => id,
            None => {
                assert(false);
                return None;
            },
        };
        proof {
            assert(before.len() > 0);
            assert(string_views(before).len() == before.len());
            assert(string_views(before) == q.subrange(t as int, n as int));
            assert(string_views(before)[0] == before[0]@);
            assert(string_views(before)[0] == q[t as int]);
            assert(string_views(rotation_queue@) =~= string_views(before).drop_first());
            assert(string_views(rotation_queue@) =~= q.subrange(t + 1, n as int));
        }
        let found = find_candidate(&request.data.encounters, candidates, next_id.as_str());
        if let Some(c) = found {
            proof {
                lemma_find_candidate_in(request.data.encounters@, candidates@, next_id@);
                let k = choose|k: int| 0 <= k < candidates@.len() && candidates@[k] == c;
                assert(candidates@[k] < request.data.encounters@.len());
            }
            assert(is_first_found(request.data.encounters@, candidates@, q, t as int));
            assert(forced_result(request.data.encounters@, candidates@, q, Some(c), string_views(rotation_queue@)));
            return Some(c);
        }
        t = t + 1;
    }
    assert(t == n);
    assert(forced_result(request.data.encounters@, candidates@, q, None, string_views(rotation_queue@)));
    None
}

/// Outcome of a forced pick from queue `q`: the first entry naming a
/// candidate is taken and everything before it dropped; else the queue empties.
pub open spec fn forced_result(
    encounters: Seq<Encounter>,
    candidates: Seq<usize>,
    q: Seq<Seq<char>>,
    r: Option<usize>,
    final_queue: Seq<Seq<char>>,
) -> bool {
    match r {
        Some(c) => exists|j: int|
            {
                &&& #[trigger] is_first_found(encounters, candidates, q, j)
                &&& find_candidate_spec(encounters, candidates, q[j]) == Some(c)
                &&& final_queue == q.subrange(j + 1, q.len() as int)
            },
        None => {
            &&& forall|j: int| 0 <= j < q.len() ==> find_candidate_spec(encounters, candidates, #[trigger] q[j]) is None
            &&& final_queue.len() == 0
        },
    }
}

// ---------------------------------------------------------------------------
// Picking an encounter
// ---------------------------------------------------------------------------

/// One weighted candidate as recorded in a decision trace.
pub struct WeightedEntry {
    pub id: String,
    pub base_weight: u32,
    pub final_weight: u32,
}

/// How a weighted pick was made: the pool, the roll, the weighted
/// candidates in order and the chosen id.
pub struct PickTrace {
    pub pool_id: String,
    pub roll: u32,
    pub candidates: Vec<WeightedEntry>,
    pub chosen_id: String,
}

/// The encounter picked for a day (if any), whether it satisfied a forced
/// rotation, and the trace of a weighted pick.
pub struct EncounterPick {
    pub encounter: Option<Encounter>,
    pub rotation_satisfied: bool,
    pub decision_trace: Option<PickTrace>,
}

/// Trace entry of a weighted position: id, base weight (at least one) and final weight.
pub open spec fn entry_spec(encounters: Seq<Encounter>, candidates: Seq<usize>, w: (usize, u32)) -> (Seq<char>, u32, u32) {
    let e = encounters[candidates[w.0 as int] as int];
    (e.id@, if e.weight >= 1 { e.weight } else { 1u32 }, w.1)
}

pub open spec fn entry_views(entries: Seq<WeightedEntry>) -> Seq<(Seq<char>, u32, u32)> {
    entries.map_values(|e: WeightedEntry| (e.id@, e.base_weight, e.final_weight))
}

/// The trace records the weighted pool, the roll and the chosen encounter.
pub open spec fn trace_matches(
    t: PickTrace,
    encounters: Seq<Encounter>,
    candidates: Seq<usize>,
    weights: Seq<(usize, u32)>,
    roll: u32,
    chosen: Encounter,
) -> bool {
    &&& t.pool_id@ == "dystrail.encounter"@
    &&& t.roll == roll
    &&& entry_views(t.candidates@) == weights.map_values(|w: (usize, u32)| entry_spec(encounters, candidates, w))
    &&& t.chosen_id@ == chosen.id@
}

fn build_decision_trace(
    encounters: &Vec<Encounter>,
    candidates: &Vec<usize>,
    weights: &Vec<(usize, u32)>,
    roll: u32,
    chosen: &Encounter,
) -> (t: PickTrace)
    requires
        forall|k: int| 0 <= k < weights@.len() ==> #[trigger] weights@[k].0 < candidates@.len(),
        forall|k: int| 0 <= k < candidates@.len() ==> #[trigger] candidates@[k] < encounters@.len(),
    ensures
        trace_matches(t, encounters@, candidates@, weights@, roll, *chosen),
{
    let ghost f = |w: (usize, u32)| entry_spec(encounters@, candidates@, w);
    let mut entries: Vec<WeightedEntry> = Vec::new();
    let mut i: usize = 0;
    while i < weights.len()
        invariant
            i <= weights@.len(),
            forall|k: int| 0 <= k < weights@.len() ==> #[trigger] weights@[k].0 < candidates@.len(),
            forall|k: int| 0 <= k < candidates@.len() ==> #[trigger] candidates@[k] < encounters@.len(),
            f == (|w: (usize, u32)| entry_spec(encounters@, candidates@, w)),
            entry_views(entries@) == weights@.take(i as int).map_values(f),
        decreases weights@.len() - i,
    {
        let (idx, final_weight) = weights[i];
        let encounter = &encounters[candidates[idx]];
        let base_weight: u32 = if encounter.weight >= 1 { encounter.weight } else { 1 };
        let ghost before = entries@;
        let id = encounter.id.clone();
        assert(id@ == encounter.id@);
        entries.push(WeightedEntry { id, base_weight, final_weight });
        assert(entry_views(entries@) =~= entry_views(before).push((encounter.id@, base_weight, final_weight)));
        assert(f(weights@[i as int]) == (encounter.id@, base_weight, final_weight));
        assert(weights@.take(i + 1) =~= weights@.take(i as int).push(weights@[i as int]));
        assert(weights@.take(i + 1).map_values(f) =~= weights@.take(i as int).map_values(f).push(f(weights@[i as int])));
        assert(entry_views(entries@) =~= weights@.take(i + 1).map_values(f));
        i = i + 1;
    }
    assert(weights@.take(weights@.len() as int) =~= weights@);
    PickTrace {
        pool_id: String::from_str("dystrail.encounter"),
        roll,
        candidates: entries,
        chosen_id: chosen.id.clone(),
    }
}

/// Region counts used for weighting: only for a conservative policy in the deep mode.
pub open spec fn region_counts_for(request: EncounterRequest) -> Option<RegionCounts> {
    if request.is_deep && request.policy == Some(PolicyKind::Conservative) {
        Some(counts_spec(request.recent@))
    } else {
        None
    }
}

/// Smallest region count used for weighting.
pub open spec fn region_min_for(request: EncounterRequest) -> u32 {
    match region_counts_for(request) {
        Some(c) => global_min_spec(c),
        None => 0,
    }
}

/// The weighted pool of a request.
pub open spec fn pick_weights(request: EncounterRequest) -> Seq<(usize, u32)> {
    let cands = candidates_spec(request);
    let seen = seen_map(request.recent@);
    let selection = selection_spec(
        primary_spec(request, cands, seen),
        fallback_spec(request, cands, seen),
        cands.len() as usize,
    );
    weights_spec(request, cands, selection, seen, region_counts_for(request), region_min_for(request))
}

/// The position and roll a weighted pick may end with: a roll below the
/// total resolved against the pool, or position zero and roll zero when
/// every weight is zero.
pub open spec fn chosen_by(weights: Seq<(usize, u32)>, idx: usize, roll: u32) -> bool {
    if weight_total(weights) == 0 {
        idx == 0 && roll == 0
    } else {
        roll < weight_total(weights) && pick_weighted(weights, roll as int) == Some(idx)
    }
}

/// Outcome of the weighted stage of a pick.
pub open spec fn weighted_pick_result(request: EncounterRequest, r: EncounterPick) -> bool {
    let cands = candidates_spec(request);
    let seen = seen_map(request.recent@);
    let weights = pick_weights(request);
    &&& r.rotation_satisfied == (request.force_rotation && primary_spec(request, cands, seen).len() > 0)
    &&& exists|idx: usize, roll: u32|
        {
            &&& #[trigger] chosen_by(weights, idx, roll)
            &&& if idx < cands.len() {
                let chosen = request.data.encounters@[cands[idx as int] as int];
                &&& r.encounter matches Some(e) && e.same_as(chosen)
                &&& r.decision_trace matches Some(t) && trace_matches(
                    t,
                    request.data.encounters@,
                    cands,
                    weights,
                    roll,
                    chosen,
                )
            } else {
                r.encounter is None && r.decision_trace is None
            }
        }
}

/// A pick served from the rotation queue.
pub open spec fn rotation_pick_is(r: EncounterPick, encounter: Encounter) -> bool {
    &&& r.encounter matches Some(e) && e.same_as(encounter)
    &&& r.rotation_satisfied
    &&& r.decision_trace is None
}

/// What follows when no queued entry was ready.
pub open spec fn after_ready(
    request: EncounterRequest,
    q2: Seq<Seq<char>>,
    r: EncounterPick,
    final_queue: Seq<Seq<char>>,
) -> bool {
    let cands = candidates_spec(request);
    let seen = seen_map(request.recent@);
    if !request.force_rotation {
        weighted_pick_result(request, r) && final_queue == q2
    } else {
        exists|qb: Seq<Seq<char>>, forced: Option<usize>|
            {
                &&& (q2.len() == 0 ==> is_backlog(request, cands, seen, qb))
                &&& (q2.len() > 0 ==> qb == q2)
                &&& #[trigger] forced_result(request.data.encounters@, cands, qb, forced, final_queue)
                &&& match forced {
                    Some(c) => rotation_pick_is(r, request.data.encounters@[c as int]),
                    None => weighted_pick_result(request, r),
                }
            }
    }
}

/// `q1` is the queue a pick from `old_queue` starts with, none of its entries
/// is ready, and under forced rotation `qb` is the queue the pick then falls
/// back to, none of whose entries names a candidate.
pub open spec fn draws_weighted_with(
    request: EncounterRequest,
    old_queue: Seq<Seq<char>>,
    q1: Seq<Seq<char>>,
    qb: Seq<Seq<char>>,
) -> bool {
    let cands = candidates_spec(request);
    let seen = seen_map(request.recent@);
    &&& (old_queue.len() == 0 ==> is_backlog(request, cands, seen, q1))
    &&& (old_queue.len() > 0 ==> q1 == old_queue)
    &&& forall|j: int| 0 <= j < q1.len() ==> !queue_entry_ready(request, cands, seen, #[trigger] q1[j])
    &&& request.force_rotation ==> {
        &&& (q1.len() == 0 ==> is_backlog(request, cands, seen, qb))
        &&& (q1.len() > 0 ==> qb == q1)
        &&& forall|j: int|
            0 <= j < qb.len() ==> find_candidate_spec(request.data.encounters@, cands, #[trigger] qb[j]) is None
    }
}

/// A pick from `old_queue` can reach the weighted draw: there are candidates
/// and the rotation queue serves none of them.
pub open spec fn may_draw_weighted(request: EncounterRequest, old_queue: Seq<Seq<char>>) -> bool {
    &&& candidates_spec(request).len() > 0
    &&& exists|q1: Seq<Seq<char>>, qb: Seq<Seq<char>>| #[trigger] draws_weighted_with(request, old_queue, q1, qb)
}

/// The weighted draw's arithmetic stays within `u32`: the starvation bonus,
/// the per-region counts of recent encounters and the total weight.
pub open spec fn weights_fit(request: EncounterRequest) -> bool {
    &&& 10 + request.malnutrition_level * 5 <= u32::MAX
    &&& request.recent@.len() <= u32::MAX
    &&& weight_total(pick_weights(request)) <= u32::MAX
}

/// Outcome of `pick_encounter` from queue `old_queue`.
pub open spec fn pick_result(
    request: EncounterRequest,
    old_queue: Seq<Seq<char>>,
    r: EncounterPick,
    final_queue: Seq<Seq<char>>,
) -> bool {
    let cands = candidates_spec(request);
    let seen = seen_map(request.recent@);
    if cands.len() == 0 {
        &&& r.encounter is None
        &&& !r.rotation_satisfied
        &&& r.decision_trace is None
        &&& final_queue == old_queue
    } else {
        exists|q1: Seq<Seq<char>>, q2: Seq<Seq<char>>, ready: Option<usize>|
            {
                &&& (old_queue.len() == 0 ==> is_backlog(request, cands, seen, q1))
                &&& (old_queue.len() > 0 ==> q1 == old_queue)
                &&& #[trigger] ready_result(request, cands, seen, q1, ready, q2)
                &&& match ready {
                    Some(c) => rotation_pick_is(r, request.data.encounters@[c as int]) && final_queue == q2,
                    None => after_ready(request, q2, r, final_queue),
                }
            }
    }
}

fn rotation_pick(encounter: &Encounter) -> (r: EncounterPick)
    ensures
        rotation_pick_is(r, *encounter),
{
    EncounterPick { encounter: Some(encounter.duplicate()), rotation_satisfied: true, decision_trace: None }
}

/// The weighted stage: split the candidates, weight the selection and draw.
fn weighted_pick(
    request: &EncounterRequest,
    candidates: &Vec<usize>,
    last_seen: &StrMap<u32>,
    rng: &mut SmallRng,
) -> (r: EncounterPick)
    requires
        candidates@ == candidates_spec(*request),
        last_seen@ == seen_map(request.recent@),
        forall|k: int| 0 <= k < candidates@.len() ==> #[trigger] candidates@[k] < request.data.encounters@.len(),
        10 + request.malnutrition_level * 5 <= u32::MAX,
        request.recent@.len() <= u32::MAX,
        weight_total(pick_weights(*request)) <= u32::MAX,
    ensures
        weighted_pick_result(*request, r),
{
    let (primary, fallback) = categorize_candidates(request, candidates, last_seen);
    let ghost primary_len = primary@.len();
    let (selection, rotation_satisfied) = determine_selection(
        primary,
        fallback,
        request.force_rotation,
        candidates.len(),
    );
    let conservative_deep = match request.policy {
        Some(PolicyKind::Conservative) => request.is_deep,
        _ => false,
    };
    let region_counts = if conservative_deep {
        Some(build_recent_region_counts(request.recent))
    } else {
        None
    };
    let region_min = match region_counts {
        Some(c) => global_min_region_count(&c),
        None => 0,
    };
    assert(region_counts == region_counts_for(*request));
    assert(region_min == region_min_for(*request));
    let ghost sel = selection@;
    let weights = build_weights(selection, candidates, request, last_seen, region_counts, region_min);
    assert(weights@ == pick_weights(*request));
    assert forall|k: int| 0 <= k < weights@.len() implies #[trigger] weights@[k].0 < candidates@.len() by {
        assert(weights@[k].0 == sel[k]);
    }
    let (chosen_idx, roll) = match choose_weighted(&weights, rng) {
        Some(p) => p,
        None => (0, 0),
    };
    assert(chosen_by(weights@, chosen_idx, roll));
    if chosen_idx < candidates.len() {
        let chosen = &request.data.encounters[candidates[chosen_idx]];
        let trace = build_decision_trace(&request.data.encounters, candidates, &weights, roll, chosen);
        EncounterPick { encounter: Some(chosen.duplicate()), rotation_satisfied, decision_trace: Some(trace) }
    } else {
        EncounterPick { encounter: None, rotation_satisfied, decision_trace: None }
    }
}

/// Picks the day's encounter: a ready entry of the rotation queue, else a
/// forced rotation entry, else a weighted draw among the candidates.
pub fn pick_encounter(
    request: &EncounterRequest,
    rotation_queue: &mut VecDeque<String>,
    rng: &mut SmallRng,
) -> (r: EncounterPick)
    requires
        may_draw_weighted(*request, string_views(old(rotation_queue)@)) ==> weights_fit(*request),
    ensures
        pick_result(*request, string_views(old(rotation_queue)@), r, string_views(final(rotation_queue)@)),
        !may_draw_weighted(*request, string_views(old(rotation_queue)@)) ==> *final(rng) == *old(rng),
{
    let candidates = filter_candidates(request);
    if candidates.len() == 0 {
        return EncounterPick { encounter: None, rotation_satisfied: false, decision_trace: None };
    }
    let last_seen = build_last_seen_map(request.recent);
    let ghost q0 = string_views(rotation_queue@);
    if rotation_queue.len() == 0 {
        *rotation_queue = build_rotation_backlog(request, &candidates, &last_seen);
    }
    let ghost q1 = string_views(rotation_queue@);
    let ready = try_pick_ready_from_queue(request, rotation_queue, &candidates, &last_seen);
    let ghost q2 = string_views(rotation_queue@);
    assert(ready_result(*request, candidates@, last_seen@, q1, ready, q2));
    if let Some(c) = ready {
        let r = rotation_pick(&request.data.encounters[c]);
        return r;
    }
    let forced = try_pick_forced_from_queue(request, rotation_queue, &candidates, &last_seen);
    if let Some(c) = forced {
        let r = rotation_pick(&request.data.encounters[c]);
        assert(after_ready(*request, q2, r, string_views(rotation_queue@)));
        return r;
    }
    proof {
        if request.force_rotation {
            let qb = choose|q: Seq<Seq<char>>|
                {
                    &&& (q2.len() == 0 ==> is_backlog(*request, candidates@, last_seen@, q))
                    &&& (q2.len() > 0 ==> q == q2)
                    &&& #[trigger] forced_result(
                        request.data.encounters@,
                        candidates@,
                        q,
                        forced,
                        string_views(rotation_queue@),
                    )
                };
            assert(draws_weighted_with(*request, q0, q1, qb));
        } else {
            assert(draws_weighted_with(*request, q0, q1, q1));
        }
    }
    let r = weighted_pick(request, &candidates, &last_seen, rng);
    assert(after_ready(*request, q2, r, string_views(rotation_queue@)));
    r
}

/// A pick served from the ready rotation queue respects the repeat window:
/// the encounter was not seen within the last few days.
pub proof fn lemma_ready_pick_respects_repeat_window(
    request: EncounterRequest,
    candidates: Seq<usize>,
    seen: Map<Seq<char>, u32>,
    q: Seq<Seq<char>>,
    c: usize,
    final_queue: Seq<Seq<char>>,
)
    requires
        ready_result(request, candidates, seen, q, Some(c), final_queue),
    ensures
        rotation_ready_spec(request.current_day, seen, request.data.encounters@[c as int].id@),
{
    let j = choose|j: int|
        {
            &&& #[trigger] is_first_ready(request, candidates, seen, q, j)
            &&& find_candidate_spec(request.data.encounters@, candidates, q[j]) == Some(c)
            &&& final_queue == q.subrange(j + 1, q.len() as int) + q.subrange(0, j)
        };
    assert(queue_entry_ready(request, candidates, seen, q[j]));
}

/// Every candidate position names an encounter eligible for the request's
/// region and mode.
pub proof fn lemma_candidates_eligible(request: EncounterRequest, k: int)
    requires
        0 <= k < candidates_spec(request).len(),
        request.data.encounters@.len() <= usize::MAX,
    ensures
        candidates_spec(request)[k] < request.data.encounters@.len(),
        eligible(request.data.encounters@[candidates_spec(request)[k] as int], request.region, request.is_deep),
{
    let p = |i: int| eligible(request.data.encounters@[i], request.region, request.is_deep);
    lemma_positions_where_bounded(request.data.encounters@.len(), p);
}

/// A picked encounter is always eligible for the request's region and mode.
pub proof fn lemma_pick_is_eligible(
    request: EncounterRequest,
    old_queue: Seq<Seq<char>>,
    r: EncounterPick,
    final_queue: Seq<Seq<char>>,
)
    requires
        pick_result(request, old_queue, r, final_queue),
        request.data.encounters@.len() <= usize::MAX,
    ensures
        r.encounter matches Some(e) ==> exists|c: int|
            0 <= c < request.data.encounters@.len() && e.same_as(request.data.encounters@[c]) && #[trigger] eligible(
                request.data.encounters@[c],
                request.region,
                request.is_deep,
            ),
{
    let cands = candidates_spec(request);
    let seen = seen_map(request.recent@);
    let encounters = request.data.encounters@;
    if cands.len() > 0 && r.encounter is Some {
        let (q1, q2, ready) = choose|q1: Seq<Seq<char>>, q2: Seq<Seq<char>>, ready: Option<usize>|
            {
                &&& (old_queue.len() == 0 ==> is_backlog(request, cands, seen, q1))
                &&& (old_queue.len() > 0 ==> q1 == old_queue)
                &&& #[trigger] ready_result(request, cands, seen, q1, ready, q2)
                &&& match ready {
                    Some(c) => rotation_pick_is(r, encounters[c as int]) && final_queue == q2,
                    None => after_ready(request, q2, r, final_queue),
                }
            };
        match ready {
            Some(c) => {
                let j = choose|j: int|
                    {
                        &&& #[trigger] is_first_ready(request, cands, seen, q1, j)
                        &&& find_candidate_spec(encounters, cands, q1[j]) == Some(c)
                        &&& q2 == q1.subrange(j + 1, q1.len() as int) + q1.subrange(0, j)
                    };
                lemma_candidate_found_eligible(request, q1[j]);
            },
            None => {
                if request.force_rotation {
                    let (qb, forced) = choose|qb: Seq<Seq<char>>, forced: Option<usize>|
                        {
                            &&& (q2.len() == 0 ==> is_backlog(request, cands, seen, qb))
                            &&& (q2.len() > 0 ==> qb == q2)
                            &&& #[trigger] forced_result(encounters, cands, qb, forced, final_queue)
                            &&& match forced {
                                Some(c) => rotation_pick_is(r, encounters[c as int]),
                                None => weighted_pick_result(request, r),
                            }
                        };
                    match forced {
                        Some(c) => {
                            let j = choose|j: int|
                                {
                                    &&& #[trigger] is_first_found(encounters, cands, qb, j)
                                    &&& find_candidate_spec(encounters, cands, qb[j]) == Some(c)
                                    &&& final_queue == qb.subrange(j + 1, qb.len() as int)
                                };
                            lemma_candidate_found_eligible(request, qb[j]);
                        },
                        None => {
                            lemma_weighted_pick_eligible(request, r);
                        },
                    }
                } else {
                    lemma_weighted_pick_eligible(request, r);
                }
            },
        }
    }
}

proof fn lemma_candidate_found_eligible(request: EncounterRequest, id: Seq<char>)
    requires
        request.data.encounters@.len() <= usize::MAX,
    ensures
        find_candidate_spec(request.data.encounters@, candidates_spec(request), id) matches Some(c) ==> {
            &&& c < request.data.encounters@.len()
            &&& eligible(request.data.encounters@[c as int], request.region, request.is_deep)
        },
{
    let cands = candidates_spec(request);
    lemma_find_candidate_in(request.data.encounters@, cands, id);
    if let Some(c) = find_candidate_spec(request.data.encounters@, cands, id) {
        let k = choose|k: int| 0 <= k < cands.len() && cands[k] == c;
        lemma_candidates_eligible(request, k);
    }
}

proof fn lemma_weighted_pick_eligible(request: EncounterRequest, r: EncounterPick)
    requires
        weighted_pick_result(request, r),
        request.data.encounters@.len() <= usize::MAX,
    ensures
        r.encounter matches Some(e) ==> exists|c: int|
            0 <= c < request.data.encounters@.len() && e.same_as(request.data.encounters@[c]) && #[trigger] eligible(
                request.data.encounters@[c],
                request.region,
                request.is_deep,
            ),
{
    let cands = candidates_spec(request);
    let weights = pick_weights(request);
    let (idx, roll) = choose|idx: usize, roll: u32|
        {
            &&& #[trigger] chosen_by(weights, idx, roll)
            &&& if idx < cands.len() {
                let chosen = request.data.encounters@[cands[idx as int] as int];
                &&& r.encounter matches Some(e) && e.same_as(chosen)
                &&& r.decision_trace matches Some(t) && trace_matches(
                    t,
                    request.data.encounters@,
                    cands,
                    weights,
                    roll,
                    chosen,
                )
            } else {
                r.encounter is None && r.decision_trace is None
            }
        };
    if idx < cands.len() {
        lemma_candidates_eligible(request, idx as int);
        let c = cands[idx as int] as int;
        assert(eligible(request.data.encounters@[c], request.region, request.is_deep));
    }
}

/// Content written for "The Deep End" (a mode label `deep_end` or `deep`,
/// in any ASCII case) is offered in a Deep run wherever its regions allow:
/// in every region when it lists none, else in each region it names.
pub proof fn lemma_deep_content_is_offered_in_deep_runs(encounter: Encounter, region: Region, i: int, j: int)
    requires
        0 <= i < encounter.modes@.len(),
        eq_ignore_ascii_case_spec(encounter.modes@[i]@, "deep_end"@) || eq_ignore_ascii_case_spec(
            encounter.modes@[i]@,
            "deep"@,
        ),
        encounter.regions@.len() == 0 || (0 <= j < encounter.regions@.len() && match region {
            Region::Heartland => eq_ignore_ascii_case_spec(encounter.regions@[j]@, "heartland"@),
            Region::RustBelt => eq_ignore_ascii_case_spec(encounter.regions@[j]@, "rustbelt"@),
            Region::Beltway => eq_ignore_ascii_case_spec(encounter.regions@[j]@, "beltway"@),
        }),
    ensures
        eligible(encounter, region, true),
{
    assert(eq_ignore_ascii_case_spec(encounter.modes@[i]@, "deep_end"@) ==> some_label_is(encounter.modes@, "deep_end"@));
    assert(eq_ignore_ascii_case_spec(encounter.modes@[i]@, "deep"@) ==> some_label_is(encounter.modes@, "deep"@));
    if encounter.regions@.len() > 0 {
        assert(eq_ignore_ascii_case_spec(encounter.regions@[j]@, region_label(region)));
        assert(some_label_is(encounter.regions@, region_label(region)));
    }
}

/// Content written for the classic mode (a mode label `classic`, in any ASCII
/// case) is offered in a classic run wherever its regions allow.
pub proof fn lemma_classic_content_is_offered_in_classic_runs(encounter: Encounter, region: Region, i: int, j: int)
    requires
        0 <= i < encounter.modes@.len(),
        eq_ignore_ascii_case_spec(encounter.modes@[i]@, "classic"@),
        encounter.regions@.len() == 0 || (0 <= j < encounter.regions@.len() && match region {
            Region::Heartland => eq_ignore_ascii_case_spec(encounter.regions@[j]@, "heartland"@),
            Region::RustBelt => eq_ignore_ascii_case_spec(encounter.regions@[j]@, "rustbelt"@),
            Region::Beltway => eq_ignore_ascii_case_spec(encounter.regions@[j]@, "beltway"@),
        }),
    ensures
        eligible(encounter, region, false),
{
    assert(some_label_is(encounter.modes@, "classic"@));
    if encounter.regions@.len() > 0 {
        assert(eq_ignore_ascii_case_spec(encounter.regions@[j]@, region_label(region)));
        assert(some_label_is(encounter.regions@, region_label(region)));
    }
}

} // verus!
