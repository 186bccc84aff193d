//! Disease catalog: kinds, definitions and weighted picks by kind.
use crate::encounters::{positions_where, lemma_positions_where_bounded, WeightedEntry, entry_views};
use crate::rng::{gen_range_u32, gen_range_usize};
use rand::rngs::SmallRng;
use vstd::prelude::*;

verus! {

/// Illness or injury.
#[derive(Debug, Clone, Copy, PartialEq, Eq, Structural)]
pub enum DiseaseKind {
    Illness,
    Injury,
}

impl DiseaseKind {
    pub open spec fn key_spec(self) -> Seq<char> {
        match self {
            DiseaseKind::Illness => "illness"@,
            DiseaseKind::Injury => "injury"@,
        }
    }

    /// Stable key of the kind.
    pub fn key(self) -> (r: &'static str)
        ensures
            r@ == self.key_spec(),
    {
        match self {
            DiseaseKind::Illness => "illness",
            DiseaseKind::Injury => "injury",
        }
    }
}

/// Default durations of illnesses and injuries, in days.
#[derive(Debug, Clone, Copy, PartialEq, Eq, Structural)]
pub struct AfflictionDurations {
    pub illness_duration_days: u8,
    pub injury_duration_days: u8,
}

/// A disease as the catalog's rules read it (its effects live with the content).
pub struct DiseaseDef {
    pub id: String,
    pub kind: DiseaseKind,
    pub display_key: String,
    pub weight: u16,
    pub duration_days: Option<u8>,
    pub tags: Vec<String>,
}

impl DiseaseDef {
    /// Days the disease lasts: its own duration, else the default of its kind;
    /// at least one.
    pub fn duration_for(&self, durations: &AfflictionDurations) -> (r: u8)
        ensures
            r == ({
                let d = match self.duration_days {
                    Some(d) => d,
                    None => match self.kind {
                        DiseaseKind::Illness => durations.illness_duration_days,
                        DiseaseKind::Injury => durations.injury_duration_days,
                    },
                };
                if d >= 1 { d } else { 1u8 }
            }),
    {
        let duration = match self.duration_days {
            Some(d) => d,
            None => match self.kind {
                DiseaseKind::Illness => durations.illness_duration_days,
                DiseaseKind::Injury => durations.injury_duration_days,
            },
        };
        if duration >= 1 { duration } else { 1 }
    }
}

/// How a disease was picked.
pub struct DiseaseTrace {
    pub pool_id: String,
    pub roll: u32,
    pub candidates: Vec<WeightedEntry>,
    pub uniform_fallback: bool,
    pub chosen_id: String,
}

/// All diseases.
pub struct DiseaseCatalog {
    pub diseases: Vec<DiseaseDef>,
}

/// Positions of the diseases of a kind.
pub open spec fn kind_positions(diseases: Seq<DiseaseDef>, kind: DiseaseKind) -> Seq<usize> {
    positions_where(diseases.len(), |i: int| diseases[i].kind == kind)
}

/// Saturating sum of the weights at the given positions.
pub open spec fn weight_sum(diseases: Seq<DiseaseDef>, positions: Seq<usize>) -> u32
    decreases positions.len(),
{
    if positions.len() == 0 {
        0
    } else {
        weight_sum(diseases, positions.drop_last()).saturating_add(
            diseases[positions.last() as int].weight as u32,
        )
    }
}

/// Walks the positions, skipping zero weights, to the one whose bucket holds
/// the roll; `fallback` when the roll passes every bucket.
pub open spec fn weighted_position(diseases: Seq<DiseaseDef>, positions: Seq<usize>, roll: int, fallback: usize) -> usize
    decreases positions.len(),
{
    if positions.len() == 0 {
        fallback
    } else {
        let w = diseases[positions[0] as int].weight as int;
        if w == 0 {
            weighted_position(diseases, positions.drop_first(), roll, fallback)
        } else if roll < w {
            positions[0]
        } else {
            weighted_position(diseases, positions.drop_first(), roll - w, fallback)
        }
    }
}

/// Bound of the roll of a pick by kind: the total weight, or the candidate
/// count when every weight is zero.
pub open spec fn roll_bound(diseases: Seq<DiseaseDef>, kind: DiseaseKind) -> int {
    let cands = kind_positions(diseases, kind);
    if weight_sum(diseases, cands) == 0 {
        cands.len() as int
    } else {
        weight_sum(diseases, cands) as int
    }
}

/// The disease picked by a roll below `roll_bound`.
pub open spec fn picked_position(diseases: Seq<DiseaseDef>, kind: DiseaseKind, roll: u32) -> usize {
    let cands = kind_positions(diseases, kind);
    if weight_sum(diseases, cands) == 0 {
        cands[roll as int]
    } else {
        weighted_position(diseases, cands, roll as int, cands[0])
    }
}

/// Trace entries of the candidates: id, base weight and final weight (one
/// each under the uniform fallback).
pub open spec fn disease_entries(diseases: Seq<DiseaseDef>, cands: Seq<usize>, uniform: bool) -> Seq<(Seq<char>, u32, u32)> {
    cands.map_values(|i: usize| {
        let w: u32 = if uniform { 1u32 } else { diseases[i as int].weight as u32 };
        (diseases[i as int].id@, w, w)
    })
}

proof fn lemma_weighted_position_in(diseases: Seq<DiseaseDef>, positions: Seq<usize>, roll: int, fallback: usize, n: nat)
    requires
        forall|k: int| 0 <= k < positions.len() ==> #[trigger] positions[k] < n,
        fallback < n,
    ensures
        weighted_position(diseases, positions, roll, fallback) < n,
    decreases positions.len(),
{
    if positions.len() > 0 {
        assert forall|k: int| 0 <= k < positions.drop_first().len() implies #[trigger] positions.drop_first()[k] < n by {
            assert(positions.drop_first()[k] == positions[k + 1]);
        }
        let w = diseases[positions[0] as int].weight as int;
        lemma_weighted_position_in(diseases, positions.drop_first(), roll - w, fallback, n);
        lemma_weighted_position_in(diseases, positions.drop_first(), roll, fallback, n);
    }
}

/// The pick and trace for `roll`: the picked position, and a trace naming
/// the pool of `kind`, the roll, every candidate of the kind in order with its
/// weight (one each when all weights are zero) and the chosen id.
pub open spec fn roll_pick(
    diseases: Seq<DiseaseDef>,
    kind: DiseaseKind,
    roll: u32,
    r: (Option<usize>, Option<DiseaseTrace>),
) -> bool {
    let cands = kind_positions(diseases, kind);
    let chosen = picked_position(diseases, kind, roll);
    let uniform = weight_sum(diseases, cands) == 0;
    &&& r.0 == Some(chosen)
    &&& chosen < diseases.len()
    &&& r.1 matches Some(t) && {
        &&& t.pool_id@ == "otdeluxe.affliction_disease."@ + kind.key_spec()
        &&& t.roll == roll
        &&& t.uniform_fallback == uniform
        &&& entry_views(t.candidates@) == disease_entries(diseases, cands, uniform)
        &&& t.chosen_id@ == diseases[chosen as int].id@
    }
}

impl DiseaseCatalog {
    /// Position of the disease with this id.
    pub fn find_by_id(&self, id: &str) -> (r: Option<usize>)
        ensures
            match r {
                Some(i) => i < self.diseases@.len() && self.diseases@[i as int].id@ == id@ && forall|k: int|
                    0 <= k < i ==> (#[trigger] self.diseases@[k]).id@ != id@,
                None => forall|k: int| 0 <= k < self.diseases@.len() ==> (#[trigger] self.diseases@[k]).id@ != id@,
            },
    {
        let mut i: usize = 0;
        while i < self.diseases.len()
            invariant
                i <= self.diseases@.len(),
                forall|k: int| 0 <= k < i ==> (#[trigger] self.diseases@[k]).id@ != id@,
            decreases self.diseases@.len() - i,
        {
            if crate::text::str_eq(self.diseases[i].id.as_str(), id) {
                return Some(i);
            }
            i = i + 1;
        }
        None
    }

    fn kind_candidates(&self, kind: DiseaseKind) -> (r: (Vec<usize>, u32))
        ensures
            r.0@ == kind_positions(self.diseases@, kind),
            r.1 == weight_sum(self.diseases@, r.0@),
            forall|k: int| 0 <= k < r.0@.len() ==> #[trigger] r.0@[k] < self.diseases@.len(),
    {
        let ghost p = |i: int| self.diseases@[i].kind == kind;
        let mut cands: Vec<usize> = Vec::new();
        let mut total: u32 = 0;
        let mut i: usize = 0;
        while i < self.diseases.len()
            invariant
                i <= self.diseases@.len(),
                p == (|i: int| self.diseases@[i].kind == kind),
                cands@ == positions_where(i as nat, p),
                total == weight_sum(self.diseases@, cands@),
            decreases self.diseases@.len() - i,
        {
            if self.diseases[i].kind == kind {
                let ghost before = cands@;
                cands.push(i);
                assert(cands@.drop_last() =~= before);
                total = total.saturating_add(self.diseases[i].weight as u32);
            }
            i = i + 1;
        }
        proof {
            lemma_positions_where_bounded(self.diseases@.len(), p);
        }
        (cands, total)
    }

    fn walk_weights(&self, cands: &Vec<usize>, roll: u32) -> (r: usize)
        requires
            cands@.len() > 0,
            forall|k: int| 0 <= k < cands@.len() ==> #[trigger] cands@[k] < self.diseases@.len(),
        ensures
            r == weighted_position(self.diseases@, cands@, roll as int, cands@[0]),
    {
        let mut remaining = roll;
        let mut i: usize = 0;
        let ghost fallback = cands@[0];
        assert(cands@.skip(0) =~= cands@);
        while i < cands.len()
            invariant
                i <= cands@.len(),
                cands@.len() > 0,
                fallback == cands@[0],
                forall|k: int| 0 <= k < cands@.len() ==> #[trigger] cands@[k] < self.diseases@.len(),
                weighted_position(self.diseases@, cands@, roll as int, fallback) == weighted_position(
                    self.diseases@,
                    cands@.skip(i as int),
                    remaining as int,
                    fallback,
                ),
            decreases cands@.len() - i,
        {
            assert(cands@.skip(i as int)[0] == cands@[i as int]);
            assert(cands@.skip(i as int).drop_first() =~= cands@.skip(i + 1));
            let w = self.diseases[cands[i]].weight as u32;
            if w > 0 {
                if remaining < w {
                    return cands[i];
                }
                remaining = remaining - w;
            }
            i = i + 1;
        }
        cands[0]
    }

    /// Picks a disease of `kind` with a given roll (below `roll_bound`): the
    /// weighted bucket of the roll, or the roll-th candidate when all weights
    /// are zero. `None` when no disease has that kind.
    pub fn pick_by_kind_with_roll(&self, kind: DiseaseKind, roll: u32) -> (r: (Option<usize>, Option<DiseaseTrace>))
        requires
            kind_positions(self.diseases@, kind).len() == 0 || roll < roll_bound(self.diseases@, kind),
        ensures
            kind_positions(self.diseases@, kind).len() == 0 ==> r.0 is None && r.1 is None,
            kind_positions(self.diseases@, kind).len() > 0 ==> roll_pick(self.diseases@, kind, roll, r),
    {
        let (cands, total) = self.kind_candidates(kind);
        if cands.len() == 0 {
            return (None, None);
        }
        let uniform = total == 0;
        let chosen: usize = if uniform {
            cands[roll as usize]
        } else {
            self.walk_weights(&cands, roll)
        };
        proof {
            if !uniform {
                lemma_weighted_position_in(self.diseases@, cands@, roll as int, cands@[0], self.diseases@.len());
            }
        }
        let mut entries: Vec<WeightedEntry> = Vec::new();
        let ghost f = |i: usize| {
            let w: u32 = if uniform { 1u32 } else { self.diseases@[i as int].weight as u32 };
            (self.diseases@[i as int].id@, w, w)
        };
        let mut j: usize = 0;
        while j < cands.len()
            invariant
                j <= cands@.len(),
                forall|k: int| 0 <= k < cands@.len() ==> #[trigger] cands@[k] < self.diseases@.len(),
                f == (|i: usize| {
                    let w: u32 = if uniform { 1u32 } else { self.diseases@[i as int].weight as u32 };
                    (self.diseases@[i as int].id@, w, w)
                }),
                entry_views(entries@) == cands@.take(j as int).map_values(f),
            decreases cands@.len() - j,
        {
            let d = &self.diseases[cands[j]];
            let w: u32 = if uniform { 1 } else { d.weight as u32 };
            let ghost before = entries@;
            let id = d.id.clone();
            entries.push(WeightedEntry { id, base_weight: w, final_weight: w });
            assert(entry_views(entries@) =~= entry_views(before).push((d.id@, w, w)));
            assert(cands@.take(j + 1) =~= cands@.take(j as int).push(cands@[j as int]));
            assert(cands@.take(j + 1).map_values(f) =~= cands@.take(j as int).map_values(f).push(f(cands@[j as int])));
            j = j + 1;
        }
        assert(cands@.take(cands@.len() as int) =~= cands@);
        let trace = DiseaseTrace {
            pool_id: String::from_str("otdeluxe.affliction_disease.").concat(kind.key()),
            roll,
            candidates: entries,
            uniform_fallback: uniform,
            chosen_id: self.diseases[chosen].id.clone(),
        };
        (Some(chosen), Some(trace))
    }

    /// Picks a disease of `kind` with a random roll below the total weight (or
    /// below the candidate count when every weight is zero).
    pub fn pick_by_kind_with_trace(&self, kind: DiseaseKind, rng: &mut SmallRng) -> (r: (Option<usize>, Option<DiseaseTrace>))
        ensures
            kind_positions(self.diseases@, kind).len() == 0 ==> r.0 is None && r.1 is None && *final(rng) == *old(rng),
            kind_positions(self.diseases@, kind).len() > 0 ==> exists|roll: u32|
                roll < roll_bound(self.diseases@, kind) && #[trigger] roll_pick(self.diseases@, kind, roll, r),
    {
        let (cands, total) = self.kind_candidates(kind);
        if cands.len() == 0 {
            return (None, None);
        }
        let roll: u32 = if total == 0 {
            let choice = gen_range_usize(rng, 0, cands.len());
            choice as u32
        } else {
            gen_range_u32(rng, 0, total)
        };
        assert(total == 0 ==> roll < cands@.len());
        let r = self.pick_by_kind_with_roll(kind, roll);
        assert(roll_pick(self.diseases@, kind, roll, r));
        r
    }

    /// The disease picked by `pick_by_kind_with_trace`, without its trace.
    pub fn pick_by_kind(&self, kind: DiseaseKind, rng: &mut SmallRng) -> (r: Option<usize>)
        ensures
            kind_positions(self.diseases@, kind).len() == 0 ==> r is None && *final(rng) == *old(rng),
            kind_positions(self.diseases@, kind).len() > 0 ==> exists|roll: u32|
                roll < roll_bound(self.diseases@, kind) && #[trigger] picked_position(self.diseases@, kind, roll) == r->0
                    && r is Some,
    {
        let r = self.pick_by_kind_with_trace(kind, rng);
        proof {
            if kind_positions(self.diseases@, kind).len() > 0 {
                let roll = choose|roll: u32|
                    roll < roll_bound(self.diseases@, kind) && #[trigger] roll_pick(self.diseases@, kind, roll, r);
                assert(picked_position(self.diseases@, kind, roll) == r.0->0);
            }
        }
        r.0
    }
}

/// A pick by kind always returns a disease of that kind.
pub proof fn lemma_pick_has_kind(diseases: Seq<DiseaseDef>, kind: DiseaseKind, roll: u32)
    requires
        kind_positions(diseases, kind).len() > 0,
        roll < roll_bound(diseases, kind),
        diseases.len() <= usize::MAX,
    ensures
        picked_position(diseases, kind, roll) < diseases.len(),
        diseases[picked_position(diseases, kind, roll) as int].kind == kind,
{
    let p = |i: int| diseases[i].kind == kind;
    lemma_positions_where_bounded(diseases.len(), p);
    let cands = kind_positions(diseases, kind);
    if weight_sum(diseases, cands) != 0 {
        lemma_weighted_position_kind(diseases, cands, roll as int, cands[0], kind);
    }
}

proof fn lemma_weighted_position_kind(diseases: Seq<DiseaseDef>, positions: Seq<usize>, roll: int, fallback: usize, kind: DiseaseKind)
    requires
        forall|k: int| 0 <= k < positions.len() ==> #[trigger] positions[k] < diseases.len() && diseases[positions[k] as int].kind == kind,
        fallback < diseases.len(),
        diseases[fallback as int].kind == kind,
    ensures
        weighted_position(diseases, positions, roll, fallback) < diseases.len(),
        diseases[weighted_position(diseases, positions, roll, fallback) as int].kind == kind,
    decreases positions.len(),
{
    if positions.len() > 0 {
        assert forall|k: int| 0 <= k < positions.drop_first().len() implies #[trigger] positions.drop_first()[k] < diseases.len()
            && diseases[positions.drop_first()[k] as int].kind == kind by {
            assert(positions.drop_first()[k] == positions[k + 1]);
        }
        let w = diseases[positions[0] as int].weight as int;
        lemma_weighted_position_kind(diseases, positions.drop_first(), roll - w, fallback, kind);
        lemma_weighted_position_kind(diseases, positions.drop_first(), roll, fallback, kind);
    }
}

} // verus!
