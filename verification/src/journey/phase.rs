//! Day gates: the bookkeeping of rest intents and of waiting for a ferry or
//! for goods to dry.
use crate::state::DayIntent;
use vstd::prelude::*;

verus! {

/// The player's pending intent and the rest days it has left.
#[derive(Debug, Clone, Copy, PartialEq, Eq, Structural)]
pub struct IntentState {
    pub pending: DayIntent,
    pub rest_days_remaining: u8,
}

/// Days left waiting for a ferry or for goods to dry.
#[derive(Debug, Clone, Copy, PartialEq, Eq, Structural)]
pub struct WaitState {
    pub ferry_wait_days_remaining: u8,
    pub drying_days_remaining: u8,
}

/// Rest days left after one more rest day: the count is first clamped to
/// `1..=9`, then one day is spent.
pub open spec fn rest_days_after(days: u8) -> u8 {
    let clamped: u8 = if days < 1 { 1 } else if days > 9 { 9 } else { days };
    (clamped - 1) as u8
}

impl IntentState {
    /// Spends one rest day; the intent returns to continuing when none is left.
    pub fn advance_rest(&mut self)
        ensures
            final(self).rest_days_remaining == rest_days_after(old(self).rest_days_remaining),
            final(self).pending == if rest_days_after(old(self).rest_days_remaining) == 0 {
                DayIntent::Continue
            } else {
                old(self).pending
            },
    {
        let days = self.rest_days_remaining;
        let clamped: u8 = if days < 1 { 1 } else if days > 9 { 9 } else { days };
        let updated = clamped - 1;
        self.rest_days_remaining = updated;
        if updated == 0 {
            self.pending = DayIntent::Continue;
        }
    }
}

/// What the intent gate did with the day.
#[derive(Debug, Clone, Copy, PartialEq, Eq, Structural)]
pub enum IntentGate {
    /// A crossing choice is pending: the day is held.
    CrossingChoicePending,
    /// A rest day was spent.
    Rest,
    /// The day goes to trading.
    Trade,
    /// The day goes to hunting.
    Hunt,
}

impl IntentState {
    /// Runs the intent gate: continuing passes (no change); a pending crossing
    /// choice holds the day; a rest intent spends one rest day; a trade or
    /// hunt intent is taken for this day, and the intent returns to continuing
    /// with no rest days left.
    pub fn run_gate(&mut self) -> (r: Option<IntentGate>)
        ensures
            match old(self).pending {
                DayIntent::Continue => r is None && *final(self) == *old(self),
                DayIntent::CrossingChoicePending => r == Some(IntentGate::CrossingChoicePending)
                    && *final(self) == *old(self),
                DayIntent::Rest => {
                    &&& r == Some(IntentGate::Rest)
                    &&& final(self).rest_days_remaining == rest_days_after(old(self).rest_days_remaining)
                    &&& final(self).pending == if rest_days_after(old(self).rest_days_remaining) == 0 {
                        DayIntent::Continue
                    } else {
                        DayIntent::Rest
                    }
                },
                DayIntent::Trade => r == Some(IntentGate::Trade) && *final(self) == (IntentState {
                    pending: DayIntent::Continue,
                    rest_days_remaining: 0,
                }),
                DayIntent::Hunt => r == Some(IntentGate::Hunt) && *final(self) == (IntentState {
                    pending: DayIntent::Continue,
                    rest_days_remaining: 0,
                }),
            },
    {
        match self.pending {
            DayIntent::Continue => None,
            DayIntent::CrossingChoicePending => Some(IntentGate::CrossingChoicePending),
            DayIntent::Rest => {
                self.advance_rest();
                Some(IntentGate::Rest)
            },
            DayIntent::Trade => {
                self.pending = DayIntent::Continue;
                self.rest_days_remaining = 0;
                Some(IntentGate::Trade)
            },
            DayIntent::Hunt => {
                self.pending = DayIntent::Continue;
                self.rest_days_remaining = 0;
                Some(IntentGate::Hunt)
            },
        }
    }
}

/// A rest intent ends within nine days, whatever count it started with.
pub proof fn lemma_rest_days_bounded(days: u8)
    ensures
        rest_days_after(days) <= 8,
        days >= 1 ==> rest_days_after(days) < days,
{
}

impl WaitState {
    /// Spends a waiting day, ferry first, and names what was waited for; `None`
    /// (and no change) when nothing is waited for.
    pub fn next_wait_tag(&mut self) -> (r: Option<&'static str>)
        ensures
            old(self).ferry_wait_days_remaining > 0 ==> {
                &&& r matches Some(t) && t@ == "wait_ferry"@
                &&& final(self).ferry_wait_days_remaining == old(self).ferry_wait_days_remaining - 1
                &&& final(self).drying_days_remaining == old(self).drying_days_remaining
            },
            old(self).ferry_wait_days_remaining == 0 && old(self).drying_days_remaining > 0 ==> {
                &&& r matches Some(t) && t@ == "wait_drying"@
                &&& final(self).drying_days_remaining == old(self).drying_days_remaining - 1
                &&& final(self).ferry_wait_days_remaining == 0
            },
            old(self).ferry_wait_days_remaining == 0 && old(self).drying_days_remaining == 0 ==> r is None
                && *final(self) == *old(self),
    {
        if self.ferry_wait_days_remaining > 0 {
            self.ferry_wait_days_remaining = self.ferry_wait_days_remaining - 1;
            Some("wait_ferry")
        } else if self.drying_days_remaining > 0 {
            self.drying_days_remaining = self.drying_days_remaining - 1;
            Some("wait_drying")
        } else {
            None
        }
    }
}

} // verus!
