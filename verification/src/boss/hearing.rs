//! Versioned hearing record and its presentation phases. Randomness is
//! committed once; presentation only reads it.
use crate::state::Stats;
use vstd::prelude::*;

verus! {

pub const HEARING_RULES_VERSION: u8 = 1;

pub const CONTINUATION_PERCENT: u8 = 50;

/// Kinds of random draws of a hearing.
#[derive(Debug, Clone, Copy, PartialEq, Eq, Structural)]
pub enum Draw {
    Influence,
    Continuation,
    Vote,
}

impl Draw {
    /// Exclusive upper bound of the draw: 101 for influence, else 100.
    pub fn bound(self) -> (r: u32)
        ensures
            r == if self == Draw::Influence { 101u32 } else { 100u32 },
    {
        match self {
            Draw::Influence => 101,
            _ => 100,
        }
    }
}

/// Presentation phase of the hearing.
#[derive(Debug, Clone, Copy, PartialEq, Eq, Structural)]
pub enum HearingPhase {
    Arrival,
    Preparation,
    RoundRolling(u8),
    RoundResult(u8),
    Committee(u8),
    CommitteeResult(u8),
    Closed,
    VoteRolling,
    Verdict,
    Complete,
}

impl Default for HearingPhase {
    fn default() -> (r: Self)
        ensures
            r == HearingPhase::Arrival,
    {
        HearingPhase::Arrival
    }
}

#[derive(Debug, Clone, Copy, PartialEq, Eq, Structural)]
pub enum HearingOutcome {
    Passed,
    Failed,
    Secured,
    Exhausted,
}

/// One round: the influence drawn, sanity before and after, and the
/// continuation roll when another round was possible.
#[derive(Debug, Clone, Copy, PartialEq, Eq, Structural)]
pub struct HearingRound {
    pub influence: u16,
    pub sanity_before: i32,
    pub sanity_after: i32,
    pub continuation_roll: Option<u8>,
}

/// The committed record of a hearing as the phase rules read it (its chances
/// live with the presentation).
#[derive(Debug, Clone)]
pub struct HearingReport {
    pub rules_version: u8,
    pub starting_stats: Stats,
    pub day: u32,
    pub minute: u16,
    pub policy_guarantee: bool,
    pub rounds: Vec<HearingRound>,
    pub vote_roll: Option<u8>,
    pub outcome: HearingOutcome,
}

/// Rounds shown in a phase, at most the rounds recorded.
pub open spec fn revealed_spec(rounds: nat, phase: HearingPhase) -> nat {
    let count: nat = match phase {
        HearingPhase::Arrival | HearingPhase::Preparation => 0,
        HearingPhase::RoundRolling(i) => i as nat,
        HearingPhase::RoundResult(i) | HearingPhase::Committee(i) | HearingPhase::CommitteeResult(i) => (i + 1) as nat,
        _ => rounds,
    };
    if count <= rounds { count } else { rounds }
}

/// The round at `i` ended with the party exhausted.
pub open spec fn exhausted_at(rounds: Seq<HearingRound>, i: u8) -> bool {
    (i as int) < rounds.len() && rounds[i as int].sanity_after <= 0
}

/// The phase after the last round: straight to the verdict when the outcome
/// needs no vote.
pub open spec fn closed_phase_spec(outcome: HearingOutcome) -> HearingPhase {
    if outcome == HearingOutcome::Secured || outcome == HearingOutcome::Exhausted {
        HearingPhase::Verdict
    } else {
        HearingPhase::Closed
    }
}

pub open spec fn next_phase_spec(rounds: Seq<HearingRound>, outcome: HearingOutcome, phase: HearingPhase) -> HearingPhase {
    match phase {
        HearingPhase::RoundRolling(i) => if exhausted_at(rounds, i) {
            HearingPhase::Verdict
        } else {
            HearingPhase::RoundResult(i)
        },
        HearingPhase::RoundResult(i) => if exhausted_at(rounds, i) {
            HearingPhase::Verdict
        } else if (i as int) < rounds.len() && rounds[i as int].continuation_roll is Some {
            HearingPhase::Committee(i)
        } else {
            closed_phase_spec(outcome)
        },
        HearingPhase::Committee(i) => HearingPhase::CommitteeResult(i),
        HearingPhase::CommitteeResult(i) => if (i as int) + 1 < rounds.len() {
            HearingPhase::RoundRolling((i + 1) as u8)
        } else {
            closed_phase_spec(outcome)
        },
        HearingPhase::Closed => HearingPhase::VoteRolling,
        HearingPhase::VoteRolling => HearingPhase::Verdict,
        HearingPhase::Verdict => HearingPhase::Complete,
        other => other,
    }
}

impl HearingReport {
    /// Rounds shown in a phase.
    pub fn revealed_rounds(&self, phase: HearingPhase) -> (r: usize)
        ensures
            r == revealed_spec(self.rounds@.len(), phase),
            r <= self.rounds@.len(),
    {
        let len = self.rounds.len();
        let count: usize = match phase {
            HearingPhase::Arrival | HearingPhase::Preparation => 0,
            HearingPhase::RoundRolling(i) => i as usize,
            HearingPhase::RoundResult(i) | HearingPhase::Committee(i) | HearingPhase::CommitteeResult(i) => i as usize + 1,
            _ => len,
        };
        if count <= len { count } else { len }
    }

    fn closed_phase(&self) -> (r: HearingPhase)
        ensures
            r == closed_phase_spec(self.outcome),
    {
        match self.outcome {
            HearingOutcome::Secured | HearingOutcome::Exhausted => HearingPhase::Verdict,
            _ => HearingPhase::Closed,
        }
    }

    fn exhausted(&self, i: u8) -> (r: bool)
        ensures
            r == exhausted_at(self.rounds@, i),
    {
        (i as usize) < self.rounds.len() && self.rounds[i as usize].sanity_after <= 0
    }

    /// The next presentation phase. A transition changes no game state and
    /// draws nothing.
    pub fn next_phase(&self, phase: HearingPhase) -> (r: HearingPhase)
        requires
            phase matches HearingPhase::CommitteeResult(i) ==> i < 255 || self.rounds@.len() <= 256,
        ensures
            r == next_phase_spec(self.rounds@, self.outcome, phase),
    {
        match phase {
            HearingPhase::RoundRolling(i) => {
                if self.exhausted(i) {
                    HearingPhase::Verdict
                } else {
                    HearingPhase::RoundResult(i)
                }
            },
            HearingPhase::RoundResult(i) => {
                if self.exhausted(i) {
                    HearingPhase::Verdict
                } else if (i as usize) < self.rounds.len() && self.rounds[i as usize].continuation_roll.is_some() {
                    HearingPhase::Committee(i)
                } else {
                    self.closed_phase()
                }
            },
            HearingPhase::Committee(i) => HearingPhase::CommitteeResult(i),
            HearingPhase::CommitteeResult(i) => {
                if (i as usize) + 1 < self.rounds.len() {
                    HearingPhase::RoundRolling(i + 1)
                } else {
                    self.closed_phase()
                }
            },
            HearingPhase::Closed => HearingPhase::VoteRolling,
            HearingPhase::VoteRolling => HearingPhase::Verdict,
            HearingPhase::Verdict => HearingPhase::Complete,
            other => other,
        }
    }
}

/// Advancing the phase never hides a round that was already shown.
pub proof fn lemma_next_phase_reveals_monotone(rounds: Seq<HearingRound>, outcome: HearingOutcome, phase: HearingPhase)
    requires
        phase matches HearingPhase::CommitteeResult(i) ==> i < 255 || rounds.len() <= 256,
    ensures
        revealed_spec(rounds.len(), next_phase_spec(rounds, outcome, phase)) >= revealed_spec(rounds.len(), phase),
{
}

/// The completed hearing stays complete, and the verdict leads to completion.
pub proof fn lemma_complete_is_final(rounds: Seq<HearingRound>, outcome: HearingOutcome)
    ensures
        next_phase_spec(rounds, outcome, HearingPhase::Complete) == HearingPhase::Complete,
        next_phase_spec(rounds, outcome, HearingPhase::Verdict) == HearingPhase::Complete,
{
}

/// A hearing that needs no vote (secured or exhausted) never goes to a
/// vote: from any phase but the closed one, the next phase is neither closed
/// nor vote rolling. After the last round that leaves no continuation, a
/// secured or exhausted hearing goes straight to the verdict, while a passed
/// or failed one closes for its vote.
pub proof fn lemma_no_vote_without_need(rounds: Seq<HearingRound>, outcome: HearingOutcome, phase: HearingPhase, i: u8)
    ensures
        (outcome == HearingOutcome::Secured || outcome == HearingOutcome::Exhausted) && phase != HearingPhase::Closed
            ==> next_phase_spec(rounds, outcome, phase) != HearingPhase::Closed && next_phase_spec(rounds, outcome, phase)
            != HearingPhase::VoteRolling,
        (i as int) + 1 == rounds.len() && rounds[i as int].sanity_after > 0 && rounds[i as int].continuation_roll is None
            ==> next_phase_spec(rounds, outcome, HearingPhase::RoundResult(i)) == if outcome == HearingOutcome::Secured
            || outcome == HearingOutcome::Exhausted {
            HearingPhase::Verdict
        } else {
            HearingPhase::Closed
        },
{
}

} // verus!
