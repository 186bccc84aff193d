//! Evidence collected through explicit encounter choices.
use crate::state::GameState;
use vstd::prelude::*;

verus! {

/// Chance in percent of finding a supporting record: ten plus the persona and
/// run bonuses, clamped to `0..=100`.
pub open spec fn bonus_chance_spec(gs: GameState) -> u8 {
    let raw = 10 + gs.mods.receipt_find_pct + gs.receipt_bonus_pct;
    if raw < 0 {
        0
    } else if raw > 100 {
        100
    } else {
        raw as u8
    }
}

/// The chance computation stays within `i32`.
pub open spec fn bonus_chance_fits(gs: GameState) -> bool {
    &&& i32::MIN <= 10 + gs.mods.receipt_find_pct <= i32::MAX
    &&& i32::MIN <= 10 + gs.mods.receipt_find_pct + gs.receipt_bonus_pct <= i32::MAX
}

impl GameState {
    /// Chance of finding one supporting record in addition to a choice's receipt.
    pub fn receipt_bonus_chance(&self) -> (r: u8)
        requires
            bonus_chance_fits(*self),
        ensures
            r == bonus_chance_spec(*self),
            r <= 100,
    {
        let raw = 10 + self.mods.receipt_find_pct + self.receipt_bonus_pct;
        let clamped = if raw < 0 { 0 } else if raw > 100 { 100 } else { raw };
        clamped as u8
    }

    /// Records the receipt, and a supporting record when `roll` (a draw in
    /// `0..100`, absent without random streams) falls below the bonus chance.
    pub fn collect_receipt_with_roll(&mut self, record: &str, roll: Option<u8>)
        requires
            bonus_chance_fits(*old(self)),
        ensures
            collected_with(*old(self), roll, *final(self), record@),
            *final(self) == (GameState { receipts: final(self).receipts, ..*old(self) }),
    {
        let ghost before = self.receipts@;
        self.receipts.push(String::from_str(record));
        assert(self.receipts@.take(before.len() as int) =~= before);
        let chance = self.receipt_bonus_chance();
        let bonus = match roll {
            Some(x) => x < chance,
            None => false,
        };
        if bonus {
            let ghost mid = self.receipts@;
            self.receipts.push(String::from_str(record).concat(":supporting-record"));
            assert(self.receipts@.take(before.len() as int) =~= mid.take(before.len() as int));
            assert(self.receipts@[before.len() as int] == mid[before.len() as int]);
        }
    }

    /// Records the receipt and, when a roll of the events stream falls below the
    /// bonus chance, a supporting record; without streams only the receipt is kept.
    pub fn collect_receipt(&mut self, record: &str)
        requires
            bonus_chance_fits(*old(self)),
        ensures
            old(self).rng_bundle is None ==> final(self).receipts@.len() == old(self).receipts@.len() + 1,
            exists|roll: Option<u8>|
                #![trigger collected_with(*old(self), roll, *final(self), record@)]
                collected_with(*old(self), roll, *final(self), record@) && (roll matches Some(x) ==> x < 100)
                    && (roll is Some <==> old(self).rng_bundle is Some),
            *final(self) == (GameState {
                receipts: final(self).receipts,
                rng_bundle: final(self).rng_bundle,
                ..*old(self)
            }),
            final(self).rng_bundle is Some == old(self).rng_bundle is Some,
            old(self).rng_bundle matches Some(b) ==> final(self).rng_bundle matches Some(c) && c.events.draws
                == b.events.draws.saturating_add(1) && c.events.seeded_with == b.events.seeded_with,
    {
        let roll = match &mut self.rng_bundle {
            Some(bundle) => Some(bundle.events.gen_range_u8(0, 100)),
            None => None,
        };
        let ghost drawn = *self;
        self.collect_receipt_with_roll(record, roll);
        assert(bonus_chance_spec(drawn) == bonus_chance_spec(*old(self)));
        assert(collected_with(*old(self), roll, *self, record@));
    }
}

/// `new` is `old` after collecting `record` with the draw `roll`.
pub open spec fn collected_with(old: GameState, roll: Option<u8>, new: GameState, record: Seq<char>) -> bool {
    let bonus = roll matches Some(x) && x < bonus_chance_spec(old);
    &&& new.receipts@.len() == old.receipts@.len() + if bonus { 2int } else { 1int }
    &&& new.receipts@.take(old.receipts@.len() as int) == old.receipts@
    &&& new.receipts@[old.receipts@.len() as int]@ == record
    &&& bonus ==> new.receipts@.last()@ == record + ":supporting-record"@
}

} // verus!
