//! Context of a fatality roll.
use crate::mechanics::otdeluxe90s::{OtDeluxeHealthLabelRanges, OtDeluxeOccupation, OtDeluxePace, OtDeluxeRations};
use crate::weather::Weather;
use vstd::prelude::*;

verus! {

/// What a fatality roll depends on.
#[derive(Debug, Clone, Copy, PartialEq, Eq, Structural)]
pub struct OtDeluxeFatalityContext {
    pub health_general: u16,
    pub pace: OtDeluxePace,
    pub rations: OtDeluxeRations,
    pub weather: Weather,
    pub occupation: Option<OtDeluxeOccupation>,
}

/// How healthy the party is, by the policy's label ranges.
#[derive(Debug, Clone, Copy, PartialEq, Eq, Structural)]
pub enum OtDeluxeHealthLabel {
    Good,
    Fair,
    Poor,
    VeryPoor,
}

/// The first label whose upper bound the general health does not exceed,
/// checked from good to poor; very poor above them all.
pub open spec fn health_label_spec(health_general: u16, ranges: OtDeluxeHealthLabelRanges) -> OtDeluxeHealthLabel {
    if health_general <= ranges.good_max {
        OtDeluxeHealthLabel::Good
    } else if health_general <= ranges.fair_max {
        OtDeluxeHealthLabel::Fair
    } else if health_general <= ranges.poor_max {
        OtDeluxeHealthLabel::Poor
    } else {
        OtDeluxeHealthLabel::VeryPoor
    }
}

/// Label of a general-health value.
pub fn otdeluxe_health_label(health_general: u16, ranges: &OtDeluxeHealthLabelRanges) -> (r: OtDeluxeHealthLabel)
    ensures
        r == health_label_spec(health_general, *ranges),
{
    if health_general <= ranges.good_max {
        OtDeluxeHealthLabel::Good
    } else if health_general <= ranges.fair_max {
        OtDeluxeHealthLabel::Fair
    } else if health_general <= ranges.poor_max {
        OtDeluxeHealthLabel::Poor
    } else {
        OtDeluxeHealthLabel::VeryPoor
    }
}

/// With ordered ranges, more general-health points (the worse end of the
/// scale) never give a better label.
pub proof fn lemma_health_label_monotone(a: u16, b: u16, ranges: OtDeluxeHealthLabelRanges)
    requires
        a <= b,
        ranges.good_max <= ranges.fair_max <= ranges.poor_max,
    ensures
        label_rank(health_label_spec(a, ranges)) <= label_rank(health_label_spec(b, ranges)),
{
}

/// Position of a label from good to very poor.
pub open spec fn label_rank(label: OtDeluxeHealthLabel) -> int {
    match label {
        OtDeluxeHealthLabel::Good => 0,
        OtDeluxeHealthLabel::Fair => 1,
        OtDeluxeHealthLabel::Poor => 2,
        OtDeluxeHealthLabel::VeryPoor => 3,
    }
}

} // verus!
