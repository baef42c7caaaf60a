//! The hash family: MurmurHash3 x64/128 of a key's bytes under seeds
//! `0, 1, ...`, each hash reduced to a bit position.
use murmur3::murmur3_x64_128;
use vstd::prelude::*;

verus! {

/// The 128-bit MurmurHash3 (x64 variant) of the UTF-8 bytes of `key` under `seed`.
pub uninterp spec fn murmur3_x64_128_of(key: Seq<char>, seed: u32) -> u128;

/// Relies on `murmur3::murmur3_x64_128`: the hash of the bytes read from the
/// source, a function of those bytes and the seed alone. Its only error is a
/// read error of the source, and reading an in-memory cursor never fails.
#[verifier::external_body]
fn murmur3_hash(key: &str, seed: u32) -> (r: u128)
    ensures
        r == murmur3_x64_128_of(key@, seed),
{
    murmur3_x64_128(&mut std::io::Cursor::new(key), seed).unwrap()
}

/// The seed of probe `i`: probe indices are taken modulo 2^32.
pub open spec fn seed_of(i: nat) -> u32 {
    (i % 0x1_0000_0000) as u32
}

/// The bit position that `hash` selects in an array of `m` bits: its low
/// 64 bits, modulo `m`.
pub open spec fn position_of(hash: u128, m: nat) -> nat {
    ((hash as nat) % 0x1_0000_0000_0000_0000) % m
}

/// The bit position of probe `i` of `key` in an array of `m` bits.
pub open spec fn probe_index(key: Seq<char>, i: nat, m: nat) -> nat {
    position_of(murmur3_x64_128_of(key, seed_of(i)), m)
}

/// Reduces a hash to a bit position in an array of `m` bits.
pub fn position(hash: u128, m: usize) -> (r: usize)
    requires
        m > 0,
    ensures
        r == position_of(hash, m as nat),
        r < m,
{
    let low: u64 = (hash % 0x1_0000_0000_0000_0000u128) as u64;
    (low % (m as u64)) as usize
}

/// Computes the bit position of probe `i` of `key` in an array of `m` bits.
pub fn probe(key: &str, i: usize, m: usize) -> (r: usize)
    requires
        m > 0,
    ensures
        r == probe_index(key@, i as nat, m as nat),
        r < m,
{
    let seed: u32 = (i as u64 % 0x1_0000_0000u64) as u32;
    position(murmur3_hash(key, seed), m)
}

} // verus!
