//! The travelling party: who is still with the expedition.
use crate::text::str_eq;
use vstd::prelude::*;

verus! {

/// Whether a member is still travelling.
#[derive(Debug, Clone, Copy, PartialEq, Eq, Structural)]
pub enum MemberStatus {
    Active,
    Departed,
    Dead,
}

/// A member of the party, known by persona.
#[derive(Debug, Clone)]
pub struct PartyMember {
    pub persona: String,
    pub status: MemberStatus,
}

/// The party, in joining order.
#[derive(Debug, Clone)]
pub struct Party {
    pub members: Vec<PartyMember>,
}

/// Status of each member after setting `status` on every member of `persona`.
pub open spec fn status_after(m: PartyMember, persona: Seq<char>, status: MemberStatus) -> MemberStatus {
    if m.persona@ == persona {
        status
    } else {
        m.status
    }
}

/// The persona has an active member.
pub open spec fn has_active(members: Seq<PartyMember>, persona: Seq<char>) -> bool {
    exists|i: int| 0 <= i < members.len() && (#[trigger] members[i]).persona@ == persona
        && members[i].status == MemberStatus::Active
}

impl Party {
    /// An empty party.
    pub fn new() -> (p: Party)
        ensures
            p.members@.len() == 0,
    {
        Party { members: Vec::new() }
    }

    /// Sets the status of every member of `persona`; others keep theirs.
    pub fn set_status(&mut self, persona: &str, status: MemberStatus)
        ensures
            final(self).members@.len() == old(self).members@.len(),
            forall|i: int|
                0 <= i < old(self).members@.len() ==> {
                    &&& (#[trigger] final(self).members@[i]).persona@ == old(self).members@[i].persona@
                    &&& final(self).members@[i].status == status_after(old(self).members@[i], persona@, status)
                },
    {
        let mut i: usize = 0;
        while i < self.members.len()
            invariant
                i <= self.members@.len(),
                self.members@.len() == old(self).members@.len(),
                forall|k: int|
                    0 <= k < self.members@.len() ==> (#[trigger] self.members@[k]).persona@ == old(self).members@[k].persona@,
                forall|k: int|
                    0 <= k < i ==> (#[trigger] self.members@[k]).status == status_after(old(self).members@[k], persona@, status),
                forall|k: int|
                    i <= k < self.members@.len() ==> (#[trigger] self.members@[k]).status == old(self).members@[k].status,
            decreases self.members@.len() - i,
        {
            if str_eq(self.members[i].persona.as_str(), persona) {
                let name = self.members[i].persona.clone();
                self.members.set(i, PartyMember { persona: name, status });
            }
            i = i + 1;
        }
    }

    /// Whether `persona` has an active member.
    pub fn is_active(&self, persona: &str) -> (r: bool)
        ensures
            r == has_active(self.members@, persona@),
    {
        let mut i: usize = 0;
        while i < self.members.len()
            invariant
                i <= self.members@.len(),
                forall|k: int| 0 <= k < i ==> !((#[trigger] self.members@[k]).persona@ == persona@
                    && self.members@[k].status == MemberStatus::Active),
            decreases self.members@.len() - i,
        {
            if str_eq(self.members[i].persona.as_str(), persona) && self.members[i].status
                == MemberStatus::Active {
                return true;
            }
            i = i + 1;
        }
        false
    }
}

} // verus!
