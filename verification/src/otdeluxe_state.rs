//! Inventory and party of the Oregon Trail Deluxe rules.
use vstd::prelude::*;

verus! {

/// Kind of affliction.
#[derive(Debug, Clone, Copy, PartialEq, Eq, Structural)]
pub enum OtDeluxeAfflictionKind {
    Illness,
    Injury,
}

/// Counted supplies of the Oregon Trail Deluxe rules.
#[derive(Debug, Clone, Copy, PartialEq, Eq, Structural)]
pub struct OtDeluxeInventory {
    pub food_lbs: u16,
    pub bullets: u16,
    pub clothes_sets: u16,
    pub spares_wheels: u8,
    pub spares_axles: u8,
    pub spares_tongues: u8,
}

/// A named traveller and whether they are alive.
#[derive(Debug, Clone)]
pub struct OtDeluxePartyMember {
    pub name: String,
    pub alive: bool,
}

/// The Oregon Trail Deluxe side of the game state.
#[derive(Debug, Clone)]
pub struct OtDeluxeState {
    pub inventory: OtDeluxeInventory,
    pub members: Vec<OtDeluxePartyMember>,
}

/// Number of living members.
pub open spec fn alive_count(members: Seq<OtDeluxePartyMember>) -> nat
    decreases members.len(),
{
    if members.len() == 0 {
        0
    } else {
        alive_count(members.drop_last()) + if members.last().alive { 1nat } else { 0nat }
    }
}

/// Positions of the living members, in order.
pub open spec fn alive_positions(members: Seq<OtDeluxePartyMember>) -> Seq<usize> {
    crate::encounters::positions_where(members.len(), |i: int| members[i].alive)
}

/// Positions of the living members, in order.
pub fn alive_member_indices(members: &[OtDeluxePartyMember]) -> (r: Vec<usize>)
    ensures
        r@ == alive_positions(members@),
        forall|k: int| 0 <= k < r@.len() ==> #[trigger] r@[k] < members@.len(),
{
    let ghost p = |i: int| members@[i].alive;
    let mut indices: Vec<usize> = Vec::new();
    let mut i: usize = 0;
    while i < members.len()
        invariant
            i <= members@.len(),
            p == (|i: int| members@[i].alive),
            indices@ == crate::encounters::positions_where(i as nat, p),
        decreases members@.len() - i,
    {
        if members[i].alive {
            indices.push(i);
        }
        i = i + 1;
    }
    proof {
        crate::encounters::lemma_positions_where_bounded(members@.len(), p);
    }
    indices
}

impl OtDeluxeState {
    /// Number of living members, saturating at `u16::MAX`.
    pub fn alive_party_count(&self) -> (r: u16)
        ensures
            r == (if alive_count(self.members@) <= u16::MAX { alive_count(self.members@) as u16 } else { u16::MAX }),
    {
        let mut count: u16 = 0;
        let mut i: usize = 0;
        while i < self.members.len()
            invariant
                i <= self.members@.len(),
                count == (if alive_count(self.members@.take(i as int)) <= u16::MAX {
                    alive_count(self.members@.take(i as int)) as u16
                } else {
                    u16::MAX
                }),
            decreases self.members@.len() - i,
        {
            assert(self.members@.take(i + 1).drop_last() =~= self.members@.take(i as int));
            if self.members[i].alive {
                count = count.saturating_add(1);
            }
            i = i + 1;
        }
        assert(self.members@.take(self.members@.len() as int) =~= self.members@);
        count
    }
}

} // verus!
