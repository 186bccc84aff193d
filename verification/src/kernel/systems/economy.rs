//! Starting money of the Oregon Trail Deluxe rules.
use crate::mechanics::otdeluxe90s::{OtDeluxeOccupation, OtDeluxeOccupationCash};
use vstd::prelude::*;

verus! {

/// Starting dollars of the first entry for `occupation`, zero when none is listed.
pub open spec fn listed_dollars(occupations: Seq<OtDeluxeOccupationCash>, occupation: OtDeluxeOccupation) -> u16
    decreases occupations.len(),
{
    if occupations.len() == 0 {
        0
    } else if occupations[0].occupation == occupation {
        occupations[0].starting_cash_dollars
    } else {
        listed_dollars(occupations.drop_first(), occupation)
    }
}

/// Starting cash in cents: the listed dollars of the occupation times one hundred.
pub fn otdeluxe_starting_cash_cents(occupation: OtDeluxeOccupation, occupations: &[OtDeluxeOccupationCash]) -> (r: u32)
    ensures
        r == listed_dollars(occupations@, occupation) as int * 100,
{
    let mut i: usize = 0;
    let mut dollars: u16 = 0;
    let mut found = false;
    assert(occupations@.skip(0) =~= occupations@);
    while i < occupations.len() && !found
        invariant
            i <= occupations@.len(),
            !found ==> listed_dollars(occupations@, occupation) == listed_dollars(occupations@.skip(i as int), occupation),
            !found ==> dollars == 0,
            found ==> dollars == listed_dollars(occupations@, occupation),
        decreases occupations@.len() - i + if found { 0int } else { 1int },
    {
        assert(occupations@.skip(i as int).drop_first() =~= occupations@.skip(i + 1));
        if occupations[i].occupation == occupation {
            dollars = occupations[i].starting_cash_dollars;
            found = true;
        } else {
            i = i + 1;
        }
    }
    proof {
        if !found {
            assert(occupations@.skip(i as int).len() == 0);
        }
    }
    (dollars as u32) * 100
}

} // verus!
