//! A small deterministic checksum.
use vstd::prelude::*;

verus! {

/// `x` rotated left by `s` bits.
pub open spec fn rotl(x: u64, s: u64) -> u64 {
    ((x << s) | (x >> ((64 - s) as u64))) as u64
}

pub open spec fn checksum_spec(seed: u64) -> u64 {
    let a0 = seed ^ 0xDEAD_BEEF_CAFE_BABEu64;
    let a1 = rotl(a0, 3) ^ (seed >> 3u64);
    let a2 = rotl(a1, 11) ^ (seed >> 11u64);
    let a3 = rotl(a2, 19) ^ (seed >> 19u64);
    let a4 = rotl(a3, 27) ^ (seed >> 27u64);
    a4 & 0xFFFF_FFFF_FFFFu64
}

fn rotate_left(x: u64, s: u64) -> (r: u64)
    requires
        0 < s < 64,
    ensures
        r == rotl(x, s),
{
    (x << s) | (x >> (64 - s))
}

/// Deterministic checksum of a seed: four rotate-and-mix rounds, kept to 48 bits.
pub fn coverage_checksum(seed: u64) -> (r: u64)
    ensures
        r == checksum_spec(seed),
        r < 0x1_0000_0000_0000,
{
    let mut acc = seed ^ 0xDEAD_BEEF_CAFE_BABE;
    acc = rotate_left(acc, 3) ^ (seed >> 3);
    acc = rotate_left(acc, 11) ^ (seed >> 11);
    acc = rotate_left(acc, 19) ^ (seed >> 19);
    acc = rotate_left(acc, 27) ^ (seed >> 27);
    let r = acc & 0xFFFF_FFFF_FFFF;
    assert(acc & 0xFFFF_FFFF_FFFFu64 < 0x1_0000_0000_0000u64) by (bit_vector);
    r
}

} // verus!
