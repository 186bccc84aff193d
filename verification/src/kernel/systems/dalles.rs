//! The Dalles river run.
use crate::journey::event::EventSeverity;
use crate::rng::{gen_range_inclusive_u8, shuffle_positions};
use rand::rngs::SmallRng;
use vstd::prelude::*;

verus! {

/// Result of running the Dalles.
#[derive(Debug, Clone, Copy, PartialEq, Eq, Structural)]
pub enum OtDeluxeDallesOutcome {
    Safe,
    Loss,
    Drown,
}

pub open spec fn dalles_outcome_id_spec(outcome: OtDeluxeDallesOutcome) -> Seq<char> {
    match outcome {
        OtDeluxeDallesOutcome::Safe => "safe"@,
        OtDeluxeDallesOutcome::Loss => "loss"@,
        OtDeluxeDallesOutcome::Drown => "drown"@,
    }
}

/// Stable id of an outcome.
pub fn otdeluxe_dalles_outcome_id(outcome: OtDeluxeDallesOutcome) -> (r: &'static str)
    ensures
        r@ == dalles_outcome_id_spec(outcome),
{
    match outcome {
        OtDeluxeDallesOutcome::Safe => "safe",
        OtDeluxeDallesOutcome::Loss => "loss",
        OtDeluxeDallesOutcome::Drown => "drown",
    }
}

/// Severity of an outcome: safe is information, loss a warning, drowning critical.
pub fn otdeluxe_dalles_severity(outcome: OtDeluxeDallesOutcome) -> (r: EventSeverity)
    ensures
        r == match outcome {
            OtDeluxeDallesOutcome::Safe => EventSeverity::Info,
            OtDeluxeDallesOutcome::Loss => EventSeverity::Warning,
            OtDeluxeDallesOutcome::Drown => EventSeverity::Critical,
        },
{
    match outcome {
        OtDeluxeDallesOutcome::Safe => EventSeverity::Info,
        OtDeluxeDallesOutcome::Loss => EventSeverity::Warning,
        OtDeluxeDallesOutcome::Drown => EventSeverity::Critical,
    }
}

/// `p` holds the entries of `s` in some order, each as many times.
pub open spec fn is_permutation_of(p: Seq<usize>, s: Seq<usize>) -> bool {
    p.len() == s.len() && p.to_multiset() == s.to_multiset()
}

/// `count` limited to `len`.
pub open spec fn capped(count: u8, len: nat) -> int {
    if count as nat <= len { count as int } else { len as int }
}

/// The living members who drown: the first `drownings` positions of the
/// living in a random order, or all of them when fewer live.
pub fn select_drowning_indices(rng: &mut SmallRng, alive_indices: &[usize], drownings: u8) -> (r: Vec<usize>)
    ensures
        drownings == 0 || alive_indices@.len() == 0 ==> *final(rng) == *old(rng),
        exists|p: Seq<usize>|
            #[trigger] is_permutation_of(p, alive_indices@) && r@ == p.take(capped(drownings, alive_indices@.len())),
{
    if drownings == 0 || alive_indices.len() == 0 {
        assert(is_permutation_of(alive_indices@, alive_indices@));
        assert(alive_indices@.take(0) =~= Seq::<usize>::empty());
        return Vec::new();
    }
    let mut indices: Vec<usize> = Vec::new();
    let mut i: usize = 0;
    while i < alive_indices.len()
        invariant
            i <= alive_indices@.len(),
            indices@ == alive_indices@.take(i as int),
        decreases alive_indices@.len() - i,
    {
        indices.push(alive_indices[i]);
        i = i + 1;
    }
    assert(alive_indices@.take(alive_indices@.len() as int) =~= alive_indices@);
    shuffle_positions(rng, &mut indices);
    let ghost shuffled = indices@;
    let count = drownings as usize;
    let keep = if count <= indices.len() { count } else { indices.len() };
    indices.truncate(keep);
    assert(is_permutation_of(shuffled, alive_indices@));
    assert(indices@ =~= shuffled.take(capped(drownings, alive_indices@.len())));
    indices
}

/// `r` is a drowning sample of `alive` between the bounds: `count` lies
/// between them (taken in either order; zero when both are zero) and `r` is
/// the first `count` entries of the permutation `p` of the living.
pub open spec fn drowning_sample(
    drownings_min: u8,
    drownings_max: u8,
    alive: Seq<usize>,
    count: u8,
    p: Seq<usize>,
    r: Seq<usize>,
) -> bool {
    &&& (if drownings_min <= drownings_max {
        drownings_min <= count <= drownings_max
    } else {
        drownings_max <= count <= drownings_min
    })
    &&& (drownings_min == 0 && drownings_max == 0 ==> count == 0)
    &&& is_permutation_of(p, alive)
    &&& r == p.take(capped(count, alive.len()))
}

/// Drownings at the Dalles: a count drawn between the two bounds (taken in
/// either order; none when both are zero), then that many of the living.
pub fn sample_drownings_with_rng(
    drownings_min: u8,
    drownings_max: u8,
    alive_indices: &[usize],
    rng: &mut SmallRng,
) -> (r: Vec<usize>)
    ensures
        drownings_min == 0 && drownings_max == 0 ==> *final(rng) == *old(rng),
        exists|count: u8, p: Seq<usize>|
            #[trigger] drowning_sample(drownings_min, drownings_max, alive_indices@, count, p, r@),
{
    let low = if drownings_min <= drownings_max { drownings_min } else { drownings_max };
    let high = if drownings_min <= drownings_max { drownings_max } else { drownings_min };
    let count: u8 = if high == 0 { 0 } else { gen_range_inclusive_u8(rng, low, high) };
    let r = select_drowning_indices(rng, alive_indices, count);
    let ghost p = choose|p: Seq<usize>|
        #[trigger] is_permutation_of(p, alive_indices@) && r@ == p.take(capped(count, alive_indices@.len()));
    assert(drowning_sample(drownings_min, drownings_max, alive_indices@, count, p, r@));
    r
}

/// Only the living drown, and no more of them than were drawn: every drowned
/// position is a living member's position.
pub proof fn lemma_drowned_are_living(alive: Seq<usize>, count: u8, p: Seq<usize>, r: Seq<usize>)
    requires
        is_permutation_of(p, alive),
        r == p.take(capped(count, alive.len())),
    ensures
        r.len() <= count,
        r.len() <= alive.len(),
        forall|i: int| 0 <= i < r.len() ==> alive.contains(#[trigger] r[i]),
{
    broadcast use vstd::seq_lib::group_to_multiset_ensures;
    assert forall|i: int| 0 <= i < r.len() implies alive.contains(#[trigger] r[i]) by {
        assert(p[i] == r[i]);
        assert(p.contains(r[i]));
        assert(p.to_multiset().count(r[i]) > 0);
        assert(alive.to_multiset().count(r[i]) > 0);
    }
}

} // verus!
