//! Stream seeds: each simulation domain gets its own generator, seeded from
//! the user seed by HMAC-SHA256 keyed with the seed's little-endian bytes.
use crate::journey::CountingRng;
use hmac::{Hmac, Mac};
use sha2::Sha256;
use vstd::prelude::*;
use vstd::string::StringSliceAdditionalSpecFns;

verus! {

/// HMAC-SHA256 of `message` under `key`: a function of the two byte strings alone.
pub uninterp spec fn hmac_sha256(key: Seq<u8>, message: Seq<u8>) -> Seq<u8>;

/// `Hmac::<Sha256>::new_from_slice`, `update` and `finalize`. Claimed: the
/// digest is the HMAC-SHA256 of the message under the key, and it is 32 bytes
/// long. HMAC accepts keys of any length, so the construction does not fail.
#[verifier::external_body]
fn hmac_sha256_digest(key: &[u8], message: &[u8]) -> (r: Vec<u8>)
    ensures
        r@ == hmac_sha256(key@, message@),
        r@.len() == 32,
{
    let mut mac = match Hmac::<Sha256>::new_from_slice(key) {
        Ok(mac) => mac,
        Err(_) => return Vec::new(),
    };
    mac.update(message);
    mac.finalize().into_bytes().to_vec()
}

/// `256^n`.
pub open spec fn pow256(n: nat) -> nat
    decreases n,
{
    if n == 0 {
        1
    } else {
        256 * pow256((n - 1) as nat)
    }
}

/// The `n` little-endian bytes of `x`.
pub open spec fn le_bytes(x: nat, n: nat) -> Seq<u8> {
    Seq::new(n, |i: int| ((x / pow256(i as nat)) % 256) as u8)
}

/// The number whose little-endian bytes are `b`.
pub open spec fn le_value(b: Seq<u8>) -> nat
    decreases b.len(),
{
    if b.len() == 0 {
        0
    } else {
        b[0] as nat + 256 * le_value(b.drop_first())
    }
}

proof fn lemma_pow256_8()
    ensures
        pow256(8) == 0x1_0000_0000_0000_0000,
{
    reveal_with_fuel(pow256, 9);
}

proof fn lemma_pow256_positive(n: nat)
    ensures
        pow256(n) >= 1,
    decreases n,
{
    if n > 0 {
        lemma_pow256_positive((n - 1) as nat);
    }
}

proof fn lemma_le_value_bound(b: Seq<u8>)
    ensures
        le_value(b) < pow256(b.len()),
    decreases b.len(),
{
    if b.len() > 0 {
        lemma_le_value_bound(b.drop_first());
        assert(le_value(b) <= 255 + 256 * (pow256(b.drop_first().len()) - 1)) by (nonlinear_arith)
            requires
                le_value(b) == b[0] as nat + 256 * le_value(b.drop_first()),
                b[0] <= 255,
                le_value(b.drop_first()) < pow256(b.drop_first().len()),
        ;
    }
}

/// The eight little-endian bytes of a 64-bit value.
pub fn u64_to_le_bytes(x: u64) -> (r: Vec<u8>)
    ensures
        r@ == le_bytes(x as nat, 8),
{
    let mut out: Vec<u8> = Vec::new();
    let mut v: u64 = x;
    let mut i: usize = 0;
    assert(pow256(0) == 1);
    assert((x as nat) / 1 == x as nat);
    while i < 8
        invariant
            i <= 8,
            out@.len() == i,
            v == (x as nat) / pow256(i as nat),
            forall|k: int| 0 <= k < i ==> #[trigger] out@[k] == (((x as nat) / pow256(k as nat)) % 256) as u8,
        decreases 8 - i,
    {
        out.push((v % 256) as u8);
        proof {
            lemma_pow256_positive(i as nat);
            assert(pow256((i + 1) as nat) == 256 * pow256(i as nat));
            vstd::arithmetic::div_mod::lemma_div_denominator(x as int, pow256(i as nat) as int, 256);
            assert(pow256(i as nat) * 256 == 256 * pow256(i as nat)) by (nonlinear_arith);
        }
        v = v / 256;
        i = i + 1;
    }
    assert(out@ =~= le_bytes(x as nat, 8));
    out
}

/// The 64-bit value of the first eight bytes, read little-endian.
pub fn u64_from_le_bytes(b: &[u8]) -> (r: u64)
    requires
        b@.len() >= 8,
    ensures
        r == le_value(b@.take(8)),
{
    let ghost s = b@.take(8);
    let mut acc: u64 = 0;
    let mut i: usize = 8;
    assert(s.subrange(8, 8) =~= Seq::<u8>::empty());
    while i > 0
        invariant
            i <= 8,
            s == b@.take(8),
            b@.len() >= 8,
            acc == le_value(s.subrange(i as int, 8)),
        decreases i,
    {
        let ghost rest = s.subrange(i as int, 8);
        let ghost next = s.subrange(i - 1, 8);
        assert(next.drop_first() =~= rest);
        assert(next[0] == b@[i - 1]);
        proof {
            lemma_le_value_bound(rest);
            lemma_le_value_bound(next);
            assert(pow256(next.len()) <= pow256(8)) by {
                lemma_pow256_mono(next.len(), 8);
            }
            lemma_pow256_8();
        }
        acc = acc * 256 + b[i - 1] as u64;
        i = i - 1;
    }
    assert(s.subrange(0, 8) =~= s);
    acc
}

proof fn lemma_pow256_mono(a: nat, b: nat)
    requires
        a <= b,
    ensures
        pow256(a) <= pow256(b),
    decreases b,
{
    if a < b {
        lemma_pow256_mono(a, (b - 1) as nat);
        lemma_pow256_positive((b - 1) as nat);
    }
}

/// Seed of a stream: the first eight bytes of the keyed digest, little-endian.
pub open spec fn stream_seed(user_seed: u64, domain_tag: Seq<u8>) -> nat {
    le_value(hmac_sha256(le_bytes(user_seed as nat, 8), domain_tag).take(8))
}

/// The seed read from a digest: its first eight bytes, little-endian.
pub fn seed_from_digest(digest: &[u8]) -> (r: u64)
    requires
        digest@.len() >= 8,
    ensures
        r == le_value(digest@.take(8)),
{
    u64_from_le_bytes(digest)
}

/// Seed of the stream for `domain_tag` under a user seed.
pub fn derive_stream_seed(user_seed: u64, domain_tag: &[u8]) -> (r: u64)
    ensures
        r == stream_seed(user_seed, domain_tag@),
{
    let key = u64_to_le_bytes(user_seed);
    let digest = hmac_sha256_digest(key.as_slice(), domain_tag);
    seed_from_digest(digest.as_slice())
}

/// The seeded streams of a run, one per simulation domain.
pub struct RngBundle {
    pub weather: CountingRng,
    pub health: CountingRng,
    pub travel: CountingRng,
    pub events: CountingRng,
    pub breakdown: CountingRng,
    pub encounter: CountingRng,
    pub crossing: CountingRng,
    pub boss: CountingRng,
    pub trade: CountingRng,
    pub hunt: CountingRng,
}

impl RngBundle {
    /// All streams seeded from a user-visible seed, none drawn from yet.
    pub fn from_user_seed(seed: u64) -> (b: RngBundle)
        ensures
            b.weather.draws == 0 && b.health.draws == 0 && b.travel.draws == 0 && b.events.draws == 0,
            b.breakdown.draws == 0 && b.encounter.draws == 0 && b.crossing.draws == 0,
            b.boss.draws == 0 && b.trade.draws == 0 && b.hunt.draws == 0,
            b.weather.seeded_with@ == stream_seed(seed, "weather".spec_bytes()),
            b.health.seeded_with@ == stream_seed(seed, "health".spec_bytes()),
            b.travel.seeded_with@ == stream_seed(seed, "travel".spec_bytes()),
            b.events.seeded_with@ == stream_seed(seed, "events".spec_bytes()),
            b.breakdown.seeded_with@ == stream_seed(seed, "breakdown".spec_bytes()),
            b.encounter.seeded_with@ == stream_seed(seed, "encounter".spec_bytes()),
            b.crossing.seeded_with@ == stream_seed(seed, "crossing".spec_bytes()),
            b.boss.seeded_with@ == stream_seed(seed, "boss".spec_bytes()),
            b.trade.seeded_with@ == stream_seed(seed, "trade".spec_bytes()),
            b.hunt.seeded_with@ == stream_seed(seed, "hunt".spec_bytes()),
    {
        RngBundle {
            weather: CountingRng::new(derive_stream_seed(seed, "weather".as_bytes())),
            health: CountingRng::new(derive_stream_seed(seed, "health".as_bytes())),
            travel: CountingRng::new(derive_stream_seed(seed, "travel".as_bytes())),
            events: CountingRng::new(derive_stream_seed(seed, "events".as_bytes())),
            breakdown: CountingRng::new(derive_stream_seed(seed, "breakdown".as_bytes())),
            encounter: CountingRng::new(derive_stream_seed(seed, "encounter".as_bytes())),
            crossing: CountingRng::new(derive_stream_seed(seed, "crossing".as_bytes())),
            boss: CountingRng::new(derive_stream_seed(seed, "boss".as_bytes())),
            trade: CountingRng::new(derive_stream_seed(seed, "trade".as_bytes())),
            hunt: CountingRng::new(derive_stream_seed(seed, "hunt".as_bytes())),
        }
    }
}

/// Reading back the `n` little-endian bytes of `x` gives `x` modulo `256^n`.
pub proof fn lemma_le_roundtrip(x: nat, n: nat)
    ensures
        le_value(le_bytes(x, n)) == x % pow256(n),
    decreases n,
{
    lemma_pow256_positive(n);
    if n == 0 {
        assert(le_bytes(x, 0).len() == 0);
    } else {
        let b = le_bytes(x, n);
        let rest = le_bytes(x / 256, (n - 1) as nat);
        assert forall|i: int| 0 <= i < rest.len() implies #[trigger] b.drop_first()[i] == rest[i] by {
            lemma_pow256_positive(i as nat);
            vstd::arithmetic::div_mod::lemma_div_denominator(x as int, 256, pow256(i as nat) as int);
            assert(pow256((i + 1) as nat) == 256 * pow256(i as nat));
        }
        assert(b.drop_first() =~= rest);
        lemma_le_roundtrip(x / 256, (n - 1) as nat);
        lemma_pow256_positive((n - 1) as nat);
        vstd::arithmetic::div_mod::lemma_mod_breakdown(x as int, 256, pow256((n - 1) as nat) as int);
        assert(pow256(0) == 1);
        assert(x / 1 == x);
        assert(b[0] == ((x / pow256(0)) % 256) as u8);
        assert(b[0] as nat == x % 256);
    }
}

/// The eight bytes of a 64-bit value read back as that value.
pub proof fn lemma_u64_le_roundtrip(x: u64)
    ensures
        le_value(le_bytes(x as nat, 8)) == x,
{
    lemma_le_roundtrip(x as nat, 8);
    lemma_pow256_8();
}

} // verus!
