//! Encounter content as read by the selection rules.
use vstd::prelude::*;

verus! {

/// An encounter in the game (its choices are presentation data handled elsewhere).
#[derive(Debug, Clone)]
pub struct Encounter {
    pub id: String,
    pub name: String,
    pub desc: String,
    pub weight: u32,
    pub regions: Vec<String>,
    pub modes: Vec<String>,
    pub hard_stop: bool,
    pub major_repair: bool,
    pub chainable: bool,
}

impl Encounter {
    /// Two encounters hold the same content.
    pub open spec fn same_as(self, other: Encounter) -> bool {
        &&& self.id@ == other.id@
        &&& self.name@ == other.name@
        &&& self.desc@ == other.desc@
        &&& self.weight == other.weight
        &&& self.regions@ == other.regions@
        &&& self.modes@ == other.modes@
        &&& self.hard_stop == other.hard_stop
        &&& self.major_repair == other.major_repair
        &&& self.chainable == other.chainable
    }

    /// A copy of this encounter.
    pub fn duplicate(&self) -> (r: Encounter)
        ensures
            r.same_as(*self),
    {
        Encounter {
            id: self.id.clone(),
            name: self.name.clone(),
            desc: self.desc.clone(),
            weight: self.weight,
            regions: copy_strings(&self.regions),
            modes: copy_strings(&self.modes),
            hard_stop: self.hard_stop,
            major_repair: self.major_repair,
            chainable: self.chainable,
        }
    }
}

/// A copy of a list of strings.
pub fn copy_strings(v: &Vec<String>) -> (r: Vec<String>)
    ensures
        r@ == v@,
{
    let mut out: Vec<String> = Vec::new();
    let mut i: usize = 0;
    while i < v.len()
        invariant
            i <= v@.len(),
            out@ == v@.take(i as int),
        decreases v@.len() - i,
    {
        out.push(v[i].clone());
        i = i + 1;
        assert(out@ =~= v@.take(i as int));
    }
    assert(v@.take(v@.len() as int) =~= v@);
    out
}

/// Container for all encounter data.
#[derive(Debug, Clone)]
pub struct EncounterData {
    pub encounters: Vec<Encounter>,
}

impl EncounterData {
    /// Create empty encounter data.
    pub fn empty() -> (r: Self)
        ensures
            r.encounters@.len() == 0,
    {
        EncounterData { encounters: Vec::new() }
    }

    /// Create encounter data from encounters.
    pub fn from_encounters(encounters: Vec<Encounter>) -> (r: Self)
        ensures
            r.encounters == encounters,
    {
        EncounterData { encounters }
    }
}

/// Effects of choosing an option of an encounter (its travel bonus lives
/// with the content).
#[derive(Debug, Clone)]
pub struct Effects {
    pub cash_cents: i64,
    pub hp: i32,
    pub sanity: i32,
    pub credibility: i32,
    pub supplies: i32,
    pub morale: i32,
    pub allies: i32,
    pub add_receipt: Option<String>,
    pub use_receipt: bool,
    pub log: Option<String>,
    pub rest: bool,
}

impl Effects {
    /// Mandatory costs are payable: cash and supplies stay non-negative after
    /// the change (a saturating sum has the sign of the exact sum) and a
    /// receipt is on hand when one is used.
    pub fn affordable(&self, stats: &crate::state::Stats, cash: i64, receipts: usize) -> (r: bool)
        ensures
            r == (cash + self.cash_cents >= 0 && stats.supplies + self.supplies >= 0 && (!self.use_receipt
                || receipts > 0)),
    {
        (cash as i128 + self.cash_cents as i128) >= 0 && (stats.supplies as i64 + self.supplies as i64) >= 0
            && (!self.use_receipt || receipts > 0)
    }
}

} // verus!
