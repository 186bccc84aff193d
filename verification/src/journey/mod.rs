//! Journey primitives: day tags and kinds, policy identifiers, and the
//! seeded random streams of a run.
pub mod daily;
pub mod event;
pub mod outcome;
pub mod phase;
pub mod seeds;

use crate::rng::{gen_range_u8, small_rng_from_seed, small_rng_next_u32, small_rng_next_u64};
use crate::state::{GameMode, PolicyKind};
use crate::vehicle::PartWeights;
use crate::text::{lemma_lex_asymmetric, lemma_lex_negative_transitive, lex_lt, str_eq, str_lt, trim, trim_spec};
use rand::rngs::SmallRng;
use vstd::prelude::*;

verus! {

/// Why a day ended up in its recorded state; stored trimmed.
#[derive(Debug, Clone)]
pub struct DayTag(pub String);

impl DayTag {
    /// A tag from a string slice, trimming whitespace.
    pub fn new(value: &str) -> (t: DayTag)
        ensures
            t.0@ == trim_spec(value@),
    {
        DayTag(trim(value))
    }

    /// Whether the tag has no visible characters.
    pub fn is_empty(&self) -> (r: bool)
        ensures
            r == (trim_spec(self.0@).len() == 0),
    {
        trim(self.0.as_str()).as_str().unicode_len() == 0
    }
}

/// Travel classification of a recorded day.
#[derive(Debug, Clone, Copy, PartialEq, Eq, Structural)]
pub enum TravelDayKind {
    Travel,
    Partial,
    NonTravel,
}

impl TravelDayKind {
    pub open spec fn counts_toward_ratio_spec(self) -> bool {
        self != TravelDayKind::NonTravel
    }

    /// Whether the day counts toward the travel ratio.
    pub fn counts_toward_ratio(self) -> (r: bool)
        ensures
            r == self.counts_toward_ratio_spec(),
    {
        match self {
            TravelDayKind::NonTravel => false,
            _ => true,
        }
    }
}

/// Mechanical ruleset of the simulation.
#[derive(Debug, Clone, Copy, PartialEq, Eq, Structural)]
pub enum MechanicalPolicyId {
    DystrailLegacy,
    OtDeluxe90s,
}

impl Default for MechanicalPolicyId {
    fn default() -> (r: Self)
        ensures
            r == MechanicalPolicyId::DystrailLegacy,
    {
        MechanicalPolicyId::DystrailLegacy
    }
}

/// High-level policy family.
#[derive(Debug, Clone, Copy, PartialEq, Eq, Structural)]
pub enum PolicyId {
    Classic,
    Deep,
}

/// Strategy overlay.
#[derive(Debug, Clone, Copy, PartialEq, Eq, Structural)]
pub enum StrategyId {
    Balanced,
    Aggressive,
    Conservative,
    ResourceManager,
}

pub open spec fn policy_kind_of_policy(value: PolicyId) -> PolicyKind {
    match value {
        PolicyId::Classic => PolicyKind::Balanced,
        PolicyId::Deep => PolicyKind::Aggressive,
    }
}

pub open spec fn policy_of_policy_kind(value: PolicyKind) -> PolicyId {
    match value {
        PolicyKind::Balanced | PolicyKind::Conservative => PolicyId::Classic,
        PolicyKind::Aggressive | PolicyKind::ResourceManager => PolicyId::Deep,
    }
}

pub open spec fn policy_of_mode(mode: GameMode) -> PolicyId {
    match mode {
        GameMode::Classic => PolicyId::Classic,
        GameMode::Deep => PolicyId::Deep,
    }
}

pub open spec fn policy_kind_of_strategy(value: StrategyId) -> PolicyKind {
    match value {
        StrategyId::Balanced => PolicyKind::Balanced,
        StrategyId::Aggressive => PolicyKind::Aggressive,
        StrategyId::Conservative => PolicyKind::Conservative,
        StrategyId::ResourceManager => PolicyKind::ResourceManager,
    }
}

pub open spec fn strategy_of_policy_kind(value: PolicyKind) -> StrategyId {
    match value {
        PolicyKind::Balanced => StrategyId::Balanced,
        PolicyKind::Aggressive => StrategyId::Aggressive,
        PolicyKind::Conservative => StrategyId::Conservative,
        PolicyKind::ResourceManager => StrategyId::ResourceManager,
    }
}

impl From<PolicyId> for PolicyKind {
    fn from(value: PolicyId) -> (r: Self) {
        match value {
            PolicyId::Classic => PolicyKind::Balanced,
            PolicyId::Deep => PolicyKind::Aggressive,
        }
    }
}

impl vstd::std_specs::convert::FromSpecImpl<PolicyId> for PolicyKind {
    open spec fn obeys_from_spec() -> bool {
        true
    }

    open spec fn from_spec(value: PolicyId) -> PolicyKind {
        policy_kind_of_policy(value)
    }
}

impl From<PolicyKind> for PolicyId {
    fn from(value: PolicyKind) -> (r: Self) {
        match value {
            PolicyKind::Balanced | PolicyKind::Conservative => PolicyId::Classic,
            PolicyKind::Aggressive | PolicyKind::ResourceManager => PolicyId::Deep,
        }
    }
}

impl vstd::std_specs::convert::FromSpecImpl<PolicyKind> for PolicyId {
    open spec fn obeys_from_spec() -> bool {
        true
    }

    open spec fn from_spec(value: PolicyKind) -> PolicyId {
        policy_of_policy_kind(value)
    }
}

impl From<GameMode> for PolicyId {
    fn from(mode: GameMode) -> (r: Self) {
        match mode {
            GameMode::Classic => PolicyId::Classic,
            GameMode::Deep => PolicyId::Deep,
        }
    }
}

impl vstd::std_specs::convert::FromSpecImpl<GameMode> for PolicyId {
    open spec fn obeys_from_spec() -> bool {
        true
    }

    open spec fn from_spec(mode: GameMode) -> PolicyId {
        policy_of_mode(mode)
    }
}

impl From<StrategyId> for PolicyKind {
    fn from(value: StrategyId) -> (r: Self) {
        match value {
            StrategyId::Balanced => PolicyKind::Balanced,
            StrategyId::Aggressive => PolicyKind::Aggressive,
            StrategyId::Conservative => PolicyKind::Conservative,
            StrategyId::ResourceManager => PolicyKind::ResourceManager,
        }
    }
}

impl vstd::std_specs::convert::FromSpecImpl<StrategyId> for PolicyKind {
    open spec fn obeys_from_spec() -> bool {
        true
    }

    open spec fn from_spec(value: StrategyId) -> PolicyKind {
        policy_kind_of_strategy(value)
    }
}

impl From<PolicyKind> for StrategyId {
    fn from(value: PolicyKind) -> (r: Self) {
        match value {
            PolicyKind::Balanced => StrategyId::Balanced,
            PolicyKind::Aggressive => StrategyId::Aggressive,
            PolicyKind::Conservative => StrategyId::Conservative,
            PolicyKind::ResourceManager => StrategyId::ResourceManager,
        }
    }
}

impl vstd::std_specs::convert::FromSpecImpl<PolicyKind> for StrategyId {
    open spec fn obeys_from_spec() -> bool {
        true
    }

    open spec fn from_spec(value: PolicyKind) -> StrategyId {
        strategy_of_policy_kind(value)
    }
}

/// A policy family survives the trip through its policy kind.
pub proof fn lemma_policy_roundtrip(p: PolicyId)
    ensures
        policy_of_policy_kind(policy_kind_of_policy(p)) == p,
{
}

/// A strategy and a policy kind convert into each other without loss, both ways.
pub proof fn lemma_strategy_roundtrip(s: StrategyId, k: PolicyKind)
    ensures
        strategy_of_policy_kind(policy_kind_of_strategy(s)) == s,
        policy_kind_of_strategy(strategy_of_policy_kind(k)) == k,
{
}

/// The policy family of a game mode is the family of its canonical policy kind.
pub proof fn lemma_mode_policy_consistent(mode: GameMode)
    ensures
        policy_kind_of_policy(policy_of_mode(mode)) == match mode {
            GameMode::Classic => PolicyKind::Balanced,
            GameMode::Deep => PolicyKind::Aggressive,
        },
{
}

// ---------------------------------------------------------------------------
// Random streams
// ---------------------------------------------------------------------------

/// The simulation domains that draw random numbers, each from its own stream.
#[derive(Debug, Clone, Copy, PartialEq, Eq, Structural)]
pub enum RngStream {
    Weather,
    Health,
    Travel,
    Events,
    Breakdown,
    Encounter,
    Crossing,
    Boss,
    Trade,
    Hunt,
}

impl RngStream {
    pub open spec fn index(self) -> u16 {
        match self {
            RngStream::Weather => 0,
            RngStream::Health => 1,
            RngStream::Travel => 2,
            RngStream::Events => 3,
            RngStream::Breakdown => 4,
            RngStream::Encounter => 5,
            RngStream::Crossing => 6,
            RngStream::Boss => 7,
            RngStream::Trade => 8,
            RngStream::Hunt => 9,
        }
    }

    pub open spec fn bit_spec(self) -> u16 {
        (1u16 << self.index()) as u16
    }

    /// The stream's bit in a mask.
    pub fn bit(self) -> (r: u16)
        ensures
            r == self.bit_spec(),
    {
        match self {
            RngStream::Weather => 1u16 << 0u16,
            RngStream::Health => 1u16 << 1u16,
            RngStream::Travel => 1u16 << 2u16,
            RngStream::Events => 1u16 << 3u16,
            RngStream::Breakdown => 1u16 << 4u16,
            RngStream::Encounter => 1u16 << 5u16,
            RngStream::Crossing => 1u16 << 6u16,
            RngStream::Boss => 1u16 << 7u16,
            RngStream::Trade => 1u16 << 8u16,
            RngStream::Hunt => 1u16 << 9u16,
        }
    }
}

/// A set of streams, one bit per stream.
#[derive(Debug, Clone, Copy, PartialEq, Eq, Structural)]
pub struct RngStreamMask(pub u16);

/// Distinct streams have distinct bits, and a mask of two streams holds
/// exactly those two.
pub proof fn lemma_stream_bits(a: RngStream, b: RngStream, c: RngStream)
    ensures
        (a.bit_spec() & c.bit_spec() != 0) <==> a == c,
        ((a.bit_spec() | b.bit_spec()) & c.bit_spec() != 0) <==> (a == c || b == c),
{
    let (x, y, z) = (a.index(), b.index(), c.index());
    assert(x < 10 && y < 10 && z < 10);
    assert(((1u16 << x) as u16 & (1u16 << z) as u16 != 0) <==> x == z) by (bit_vector)
        requires
            x < 10,
            z < 10,
    ;
    assert((((1u16 << x) as u16 | (1u16 << y) as u16) & (1u16 << z) as u16 != 0) <==> (x == z || y
        == z)) by (bit_vector)
        requires
            x < 10,
            y < 10,
            z < 10,
    ;
}

impl RngStreamMask {
    /// Whether the mask holds the stream.
    pub open spec fn has(self, stream: RngStream) -> bool {
        self.0 & stream.bit_spec() != 0
    }

    /// The mask with no stream.
    pub fn empty() -> (m: RngStreamMask)
        ensures
            forall|s: RngStream| !#[trigger] m.has(s),
    {
        proof {
            assert forall|s: RngStream| !#[trigger] RngStreamMask(0).has(s) by {
                let b = s.bit_spec();
                assert(0u16 & b == 0) by (bit_vector);
            }
        }
        RngStreamMask(0)
    }

    /// The mask holding exactly one stream.
    pub fn single(stream: RngStream) -> (m: RngStreamMask)
        ensures
            forall|s: RngStream| #[trigger] m.has(s) <==> s == stream,
    {
        proof {
            assert forall|s: RngStream| #[trigger] RngStreamMask(stream.bit_spec()).has(s) <==> s == stream by {
                lemma_stream_bits(stream, stream, s);
            }
        }
        RngStreamMask(stream.bit())
    }

    /// The mask holding exactly two streams.
    pub fn pair(first: RngStream, second: RngStream) -> (m: RngStreamMask)
        ensures
            forall|s: RngStream| #[trigger] m.has(s) <==> (s == first || s == second),
    {
        proof {
            assert forall|s: RngStream| #[trigger] RngStreamMask(
                (first.bit_spec() | second.bit_spec()) as u16,
            ).has(s) <==> (s == first || s == second) by {
                lemma_stream_bits(first, second, s);
            }
        }
        RngStreamMask(first.bit() | second.bit())
    }

    /// Whether the mask holds the stream.
    pub fn contains(self, stream: RngStream) -> (r: bool)
        ensures
            r == self.has(stream),
    {
        (self.0 & stream.bit()) != 0
    }
}

/// Phases of a simulated day, each allowed to draw from set streams.
#[derive(Debug, Clone, Copy, PartialEq, Eq, Structural)]
pub enum RngPhase {
    DailyEffects,
    ExecOrders,
    HealthTick,
    WeatherTick,
    VehicleBreakdown,
    EncounterTick,
    TravelTick,
    CrossingTick,
    BossTick,
    TradeTick,
    HuntTick,
}

/// The streams a phase may draw from.
pub open spec fn phase_streams(phase: RngPhase, s: RngStream) -> bool {
    match phase {
        RngPhase::DailyEffects | RngPhase::ExecOrders => s == RngStream::Events,
        RngPhase::HealthTick => s == RngStream::Health,
        RngPhase::WeatherTick => s == RngStream::Weather,
        RngPhase::VehicleBreakdown => s == RngStream::Breakdown,
        RngPhase::EncounterTick => s == RngStream::Encounter,
        RngPhase::TravelTick => s == RngStream::Travel || s == RngStream::Events,
        RngPhase::CrossingTick => s == RngStream::Crossing,
        RngPhase::BossTick => s == RngStream::Boss,
        RngPhase::TradeTick => s == RngStream::Trade,
        RngPhase::HuntTick => s == RngStream::Hunt,
    }
}

impl RngPhase {
    /// The streams this phase may draw from.
    pub fn allowed_streams(self) -> (m: RngStreamMask)
        ensures
            forall|s: RngStream| #[trigger] m.has(s) <==> phase_streams(self, s),
    {
        match self {
            RngPhase::DailyEffects | RngPhase::ExecOrders => RngStreamMask::single(RngStream::Events),
            RngPhase::HealthTick => RngStreamMask::single(RngStream::Health),
            RngPhase::WeatherTick => RngStreamMask::single(RngStream::Weather),
            RngPhase::VehicleBreakdown => RngStreamMask::single(RngStream::Breakdown),
            RngPhase::EncounterTick => RngStreamMask::single(RngStream::Encounter),
            RngPhase::TravelTick => RngStreamMask::pair(RngStream::Travel, RngStream::Events),
            RngPhase::CrossingTick => RngStreamMask::single(RngStream::Crossing),
            RngPhase::BossTick => RngStreamMask::single(RngStream::Boss),
            RngPhase::TradeTick => RngStreamMask::single(RngStream::Trade),
            RngPhase::HuntTick => RngStreamMask::single(RngStream::Hunt),
        }
    }
}

/// A random stream that counts its draws. `seeded_with` records, for proofs
/// only, the seed the generator was made from.
pub struct CountingRng {
    pub rng: SmallRng,
    pub draws: u64,
    pub seeded_with: Ghost<u64>,
}

impl CountingRng {
    /// A stream seeded from `seed`, with no draws yet.
    pub fn new(seed: u64) -> (r: CountingRng)
        ensures
            r.draws == 0,
            r.seeded_with@ == seed,
    {
        CountingRng { rng: small_rng_from_seed(seed), draws: 0, seeded_with: Ghost(seed) }
    }

    /// Number of draws made from this stream.
    pub fn draws(&self) -> (r: u64)
        ensures
            r == self.draws,
    {
        self.draws
    }

    /// Draws 32 random bits, counting the draw.
    pub fn next_u32(&mut self) -> (r: u32)
        ensures
            final(self).draws == old(self).draws.saturating_add(1),
            final(self).seeded_with == old(self).seeded_with,
    {
        self.draws = self.draws.saturating_add(1);
        small_rng_next_u32(&mut self.rng)
    }

    /// Draws a value in `[low, high)` through `Rng::gen_range`, counting one
    /// draw for the request.
    pub fn gen_range_u8(&mut self, low: u8, high: u8) -> (r: u8)
        requires
            low < high,
        ensures
            low <= r < high,
            final(self).draws == old(self).draws.saturating_add(1),
            final(self).seeded_with == old(self).seeded_with,
    {
        self.draws = self.draws.saturating_add(1);
        gen_range_u8(&mut self.rng, low, high)
    }

    /// Draws 64 random bits, counting the draw.
    pub fn next_u64(&mut self) -> (r: u64)
        ensures
            final(self).draws == old(self).draws.saturating_add(1),
            final(self).seeded_with == old(self).seeded_with,
    {
        self.draws = self.draws.saturating_add(1);
        small_rng_next_u64(&mut self.rng)
    }
}

// ---------------------------------------------------------------------------
// Overlays and policies
// ---------------------------------------------------------------------------

/// Optional replacements of the breakdown part weights.
#[derive(Debug, Clone, Copy, PartialEq, Eq, Structural)]
pub struct PartWeightsOverlay {
    pub tire: Option<u32>,
    pub battery: Option<u32>,
    pub alt: Option<u32>,
    pub pump: Option<u32>,
}

/// The weights with every value the overlay sets replaced.
pub open spec fn overlaid(w: PartWeights, o: PartWeightsOverlay) -> PartWeights {
    PartWeights {
        tire: match o.tire { Some(v) => v, None => w.tire },
        battery: match o.battery { Some(v) => v, None => w.battery },
        alt: match o.alt { Some(v) => v, None => w.alt },
        pump: match o.pump { Some(v) => v, None => w.pump },
    }
}

impl PartWeights {
    /// The weights with every value the overlay sets replaced.
    pub fn with_overlay(&self, overlay: &PartWeightsOverlay) -> (r: PartWeights)
        ensures
            r == overlaid(*self, *overlay),
    {
        PartWeights {
            tire: match overlay.tire { Some(v) => v, None => self.tire },
            battery: match overlay.battery { Some(v) => v, None => self.battery },
            alt: match overlay.alt { Some(v) => v, None => self.alt },
            pump: match overlay.pump { Some(v) => v, None => self.pump },
        }
    }
}

/// An empty overlay changes nothing, and applying an overlay twice is
/// applying it once.
pub proof fn lemma_overlay_laws(w: PartWeights, o: PartWeightsOverlay)
    ensures
        overlaid(w, PartWeightsOverlay { tire: None, battery: None, alt: None, pump: None }) == w,
        overlaid(overlaid(w, o), o) == overlaid(w, o),
{
}

/// Range of detour days.
#[derive(Debug, Clone, Copy, PartialEq, Eq, Structural)]
pub struct DetourPolicy {
    pub min: u8,
    pub max: u8,
}

impl Default for DetourPolicy {
    fn default() -> (r: Self)
        ensures
            r.min == 1 && r.max == 3,
    {
        DetourPolicy { min: DetourPolicy::default_min(), max: DetourPolicy::default_max() }
    }
}

/// The range after sanitizing: the minimum at least one, the maximum at least the minimum.
pub open spec fn sanitized_detour(p: DetourPolicy) -> DetourPolicy {
    let min: u8 = if p.min == 0 { 1 } else { p.min };
    DetourPolicy { min, max: if p.max < min { min } else { p.max } }
}

impl DetourPolicy {
    /// Default shortest detour, in days.
    pub fn default_min() -> (r: u8)
        ensures
            r == 1,
    {
        1
    }

    /// Default longest detour, in days.
    pub fn default_max() -> (r: u8)
        ensures
            r == 3,
    {
        3
    }

    /// Raises a zero minimum to one and a maximum below the minimum to it.
    pub fn sanitize(&mut self)
        ensures
            *final(self) == sanitized_detour(*old(self)),
            1 <= final(self).min <= final(self).max,
    {
        if self.min == 0 {
            self.min = 1;
        }
        if self.max < self.min {
            self.max = self.min;
        }
    }
}

/// Sanitizing a detour range twice is sanitizing it once, and a valid range is kept.
pub proof fn lemma_sanitize_detour_idempotent(p: DetourPolicy)
    ensures
        sanitized_detour(sanitized_detour(p)) == sanitized_detour(p),
        1 <= p.min <= p.max ==> sanitized_detour(p) == p,
{
}

/// Permits that waive terminal crossing outcomes.
#[derive(Debug, Clone)]
pub struct PermitPolicy {
    pub disable_terminal: bool,
    pub eligible: Vec<String>,
}

/// Ordered by code point, with no string twice.
pub open spec fn sorted_unique(v: Seq<String>) -> bool {
    &&& forall|i: int, j: int| 0 <= i < j < v.len() ==> !lex_lt((#[trigger] v[j])@, (#[trigger] v[i])@)
    &&& forall|i: int, j: int| 0 <= i < j < v.len() ==> (#[trigger] v[i])@ != (#[trigger] v[j])@
}

/// The strings held by a list.
pub open spec fn holds(v: Seq<String>, x: Seq<char>) -> bool {
    exists|i: int| 0 <= i < v.len() && (#[trigger] v[i])@ == x
}

fn holds_exec(v: &Vec<String>, x: &str) -> (r: bool)
    ensures
        r == holds(v@, x@),
{
    let mut i: usize = 0;
    while i < v.len()
        invariant
            i <= v@.len(),
            forall|k: int| 0 <= k < i ==> (#[trigger] v@[k])@ != x@,
        decreases v@.len() - i,
    {
        if str_eq(v[i].as_str(), x) {
            assert(v@[i as int]@ == x@);
            return true;
        }
        i = i + 1;
    }
    false
}

/// Inserts a string that is not yet held into an ordered list, keeping it ordered.
fn insert_ordered(v: &mut Vec<String>, x: String)
    requires
        sorted_unique(old(v)@),
        !holds(old(v)@, x@),
    ensures
        sorted_unique(final(v)@),
        forall|y: Seq<char>| holds(final(v)@, y) <==> (holds(old(v)@, y) || y == x@),
{
    let mut p: usize = 0;
    while p < v.len() && str_lt(v[p].as_str(), x.as_str())
        invariant
            p <= v@.len(),
            v@ == old(v)@,
            forall|k: int| 0 <= k < p ==> lex_lt((#[trigger] v@[k])@, x@),
        decreases v@.len() - p,
    {
        p = p + 1;
    }
    let ghost before = v@;
    let ghost xv = x@;
    v.insert(p, x);
    proof {
        assert(p < before.len() ==> !lex_lt(before[p as int]@, xv));
        assert forall|i: int, j: int| 0 <= i < j < v@.len() implies !lex_lt((#[trigger] v@[j])@, (#[trigger] v@[i])@) by {
            if i < p && j == p {
                assert(v@[i] == before[i] && v@[j]@ == xv);
                lemma_lex_asymmetric(before[i]@, xv);
            } else if i < p && j > p {
                assert(v@[i] == before[i] && v@[j] == before[j - 1]);
            } else if i == p && j > p {
                assert(v@[i]@ == xv && v@[j] == before[j - 1]);
                lemma_lex_negative_transitive(xv, before[p as int]@, before[j - 1]@);
            } else if i > p {
                assert(v@[i] == before[i - 1] && v@[j] == before[j - 1]);
            } else {
                assert(v@[i] == before[i] && v@[j] == before[j]);
            }
        }
        assert forall|i: int, j: int| 0 <= i < j < v@.len() implies (#[trigger] v@[i])@ != (#[trigger] v@[j])@ by {
            if i == p {
                assert(v@[j] == before[j - 1]);
            } else if j == p {
                assert(v@[i] == before[i]);
            } else if i < p && j < p {
                assert(v@[i] == before[i] && v@[j] == before[j]);
            } else if i < p {
                assert(v@[i] == before[i] && v@[j] == before[j - 1]);
            } else {
                assert(v@[i] == before[i - 1] && v@[j] == before[j - 1]);
            }
        }
        assert forall|y: Seq<char>| holds(v@, y) <==> (holds(before, y) || y == xv) by {
            if holds(v@, y) {
                let i = choose|i: int| 0 <= i < v@.len() && (#[trigger] v@[i])@ == y;
                if i < p {
                    assert(v@[i] == before[i]);
                } else if i > p {
                    assert(v@[i] == before[i - 1]);
                }
            }
            if holds(before, y) {
                let i = choose|i: int| 0 <= i < before.len() && (#[trigger] before[i])@ == y;
                if i < p {
                    assert(v@[i] == before[i]);
                } else {
                    assert(v@[i + 1] == before[i]);
                }
            }
            if y == xv {
                assert(v@[p as int]@ == xv);
            }
        }
    }
}

impl PermitPolicy {
    /// Orders the eligible permits by code point and drops repeats.
    pub fn sanitize(&mut self)
        ensures
            final(self).disable_terminal == old(self).disable_terminal,
            sorted_unique(final(self).eligible@),
            forall|y: Seq<char>| holds(final(self).eligible@, y) <==> holds(old(self).eligible@, y),
    {
        let mut out: Vec<String> = Vec::new();
        let mut i: usize = 0;
        while i < self.eligible.len()
            invariant
                i <= self.eligible@.len(),
                self.eligible@ == old(self).eligible@,
                sorted_unique(out@),
                forall|y: Seq<char>| holds(out@, y) <==> holds(self.eligible@.take(i as int), y),
            decreases self.eligible@.len() - i,
        {
            let item = self.eligible[i].clone();
            let ghost taken = self.eligible@.take(i as int);
            let ghost next = self.eligible@.take(i + 1);
            assert(next == taken.push(self.eligible@[i as int]));
            assert forall|y: Seq<char>| holds(next, y) <==> (holds(taken, y) || y == self.eligible@[i as int]@) by {
                if holds(next, y) {
                    let k = choose|k: int| 0 <= k < next.len() && (#[trigger] next[k])@ == y;
                    if k < taken.len() {
                        assert(taken[k] == next[k]);
                    }
                }
                if holds(taken, y) {
                    let k = choose|k: int| 0 <= k < taken.len() && (#[trigger] taken[k])@ == y;
                    assert(next[k] == taken[k]);
                }
                if y == self.eligible@[i as int]@ {
                    assert(next[i as int] == self.eligible@[i as int]);
                }
            }
            if !holds_exec(&out, item.as_str()) {
                insert_ordered(&mut out, item);
            }
            i = i + 1;
        }
        assert(self.eligible@.take(self.eligible@.len() as int) =~= self.eligible@);
        self.eligible = out;
    }
}

} // verus!
