//! Navigation mishaps on the trail.
use crate::mechanics::otdeluxe90s::{OtDeluxeNavigationDelay, OtDeluxeNavigationDelays};
use crate::rng::gen_range_inclusive_u8;
use rand::rngs::SmallRng;
use vstd::prelude::*;

verus! {

/// A navigation mishap.
#[derive(Debug, Clone, Copy, PartialEq, Eq, Structural)]
pub enum OtDeluxeNavigationEvent {
    LostTrail,
    WrongTrail,
    Impassable,
    Snowbound,
}

pub open spec fn reason_tag_spec(event: OtDeluxeNavigationEvent) -> Seq<char> {
    match event {
        OtDeluxeNavigationEvent::LostTrail => "otdeluxe.nav_lost"@,
        OtDeluxeNavigationEvent::WrongTrail => "otdeluxe.nav_wrong"@,
        OtDeluxeNavigationEvent::Impassable => "otdeluxe.nav_impassable"@,
        OtDeluxeNavigationEvent::Snowbound => "otdeluxe.nav_snowbound"@,
    }
}

/// Day tag recording the mishap.
pub fn otdeluxe_navigation_reason_tag(event: OtDeluxeNavigationEvent) -> (r: &'static str)
    ensures
        r@ == reason_tag_spec(event),
{
    match event {
        OtDeluxeNavigationEvent::LostTrail => "otdeluxe.nav_lost",
        OtDeluxeNavigationEvent::WrongTrail => "otdeluxe.nav_wrong",
        OtDeluxeNavigationEvent::Impassable => "otdeluxe.nav_impassable",
        OtDeluxeNavigationEvent::Snowbound => "otdeluxe.nav_snowbound",
    }
}

/// Day tag of a delay: blocked or merely delayed.
pub fn otdeluxe_navigation_delay_tag(blocked: bool) -> (r: &'static str)
    ensures
        r@ == if blocked { "otdeluxe.nav_blocked"@ } else { "otdeluxe.nav_delay"@ },
{
    if blocked {
        "otdeluxe.nav_blocked"
    } else {
        "otdeluxe.nav_delay"
    }
}

pub open spec fn event_id_spec(event: OtDeluxeNavigationEvent) -> Seq<char> {
    match event {
        OtDeluxeNavigationEvent::LostTrail => "lost_trail"@,
        OtDeluxeNavigationEvent::WrongTrail => "wrong_trail"@,
        OtDeluxeNavigationEvent::Impassable => "impassable"@,
        OtDeluxeNavigationEvent::Snowbound => "snowbound"@,
    }
}

/// Stable id of the mishap.
pub fn otdeluxe_navigation_event_id(event: OtDeluxeNavigationEvent) -> (r: &'static str)
    ensures
        r@ == event_id_spec(event),
{
    match event {
        OtDeluxeNavigationEvent::LostTrail => "lost_trail",
        OtDeluxeNavigationEvent::WrongTrail => "wrong_trail",
        OtDeluxeNavigationEvent::Impassable => "impassable",
        OtDeluxeNavigationEvent::Snowbound => "snowbound",
    }
}

/// Impassable and snowbound trails block travel; the others only delay it.
pub fn otdeluxe_navigation_is_blocked(event: OtDeluxeNavigationEvent) -> (r: bool)
    ensures
        r == (event == OtDeluxeNavigationEvent::Impassable || event == OtDeluxeNavigationEvent::Snowbound),
{
    match event {
        OtDeluxeNavigationEvent::Impassable | OtDeluxeNavigationEvent::Snowbound => true,
        _ => false,
    }
}

/// The event of the bucket a roll falls in, skipping zero weights; lost trail
/// when the roll is past every bucket.
pub open spec fn pick_navigation_spec(options: Seq<(OtDeluxeNavigationEvent, u32)>, roll: int) -> OtDeluxeNavigationEvent
    decreases options.len(),
{
    if options.len() == 0 {
        OtDeluxeNavigationEvent::LostTrail
    } else if options[0].1 > 0 && roll < options[0].1 {
        options[0].0
    } else {
        let rest_roll = if options[0].1 > 0 { roll - options[0].1 } else { roll };
        pick_navigation_spec(options.drop_first(), rest_roll)
    }
}

/// Maps a roll to the event whose weight bucket holds it.
pub fn pick_navigation_event(options: &[(OtDeluxeNavigationEvent, u32); 4], roll: u32) -> (r: OtDeluxeNavigationEvent)
    ensures
        r == pick_navigation_spec(options@, roll as int),
{
    let mut remaining = roll;
    let mut i: usize = 0;
    assert(options@.skip(0) =~= options@);
    while i < 4
        invariant
            i <= 4,
            options@.len() == 4,
            pick_navigation_spec(options@, roll as int) == pick_navigation_spec(options@.skip(i as int), remaining as int),
        decreases 4 - i,
    {
        let (event, weight) = options[i];
        assert(options@.skip(i as int)[0] == options@[i as int]);
        assert(options@.skip(i as int).drop_first() =~= options@.skip(i + 1));
        if weight > 0 {
            if remaining < weight {
                return event;
            }
            remaining = remaining - weight;
        }
        i = i + 1;
    }
    OtDeluxeNavigationEvent::LostTrail
}

/// Days a delay costs when `days` is drawn: none when the range is empty at
/// zero, else a draw within the range ordered low to high.
pub fn roll_otdeluxe_navigation_delay_days(delay: OtDeluxeNavigationDelay, rng: &mut SmallRng) -> (r: u8)
    ensures
        delay.max_days == 0 ==> r == 0 && *final(rng) == *old(rng),
        delay.max_days > 0 ==> {
            let lo = if delay.min_days <= delay.max_days { delay.min_days } else { delay.max_days };
            let hi = if delay.max_days >= delay.min_days { delay.max_days } else { delay.min_days };
            lo <= r <= hi
        },
{
    if delay.max_days == 0 {
        return 0;
    }
    let min_days = if delay.min_days <= delay.max_days { delay.min_days } else { delay.max_days };
    let max_days = if delay.max_days >= delay.min_days { delay.max_days } else { delay.min_days };
    gen_range_inclusive_u8(rng, min_days, max_days)
}

/// A roll never selects an event of zero weight: the result is an option
/// with positive weight, or the lost-trail fallback.
pub proof fn lemma_pick_skips_zero_weights(options: Seq<(OtDeluxeNavigationEvent, u32)>, roll: int)
    ensures
        pick_navigation_spec(options, roll) == OtDeluxeNavigationEvent::LostTrail || exists|i: int|
            0 <= i < options.len() && (#[trigger] options[i]).0 == pick_navigation_spec(options, roll) && options[i].1 > 0,
    decreases options.len(),
{
    if options.len() > 0 {
        let rest_roll = if options[0].1 > 0 { roll - options[0].1 } else { roll };
        lemma_pick_skips_zero_weights(options.drop_first(), rest_roll);
        if !(options[0].1 > 0 && roll < options[0].1) {
            let r = pick_navigation_spec(options.drop_first(), rest_roll);
            if r != OtDeluxeNavigationEvent::LostTrail {
                let i = choose|i: int| 0 <= i < options.drop_first().len() && (#[trigger] options.drop_first()[i]).0 == r
                    && options.drop_first()[i].1 > 0;
                assert(options[i + 1] == options.drop_first()[i]);
            }
        }
    }
}

/// Delay range of a mishap.
pub fn otdeluxe_navigation_delay_for(event: OtDeluxeNavigationEvent, delays: &OtDeluxeNavigationDelays) -> (r: OtDeluxeNavigationDelay)
    ensures
        r == match event {
            OtDeluxeNavigationEvent::LostTrail => delays.lost_delay,
            OtDeluxeNavigationEvent::WrongTrail => delays.wrong_delay,
            OtDeluxeNavigationEvent::Impassable => delays.impassable_delay,
            OtDeluxeNavigationEvent::Snowbound => delays.snowbound_delay,
        },
{
    match event {
        OtDeluxeNavigationEvent::LostTrail => delays.lost_delay,
        OtDeluxeNavigationEvent::WrongTrail => delays.wrong_delay,
        OtDeluxeNavigationEvent::Impassable => delays.impassable_delay,
        OtDeluxeNavigationEvent::Snowbound => delays.snowbound_delay,
    }
}

} // verus!
