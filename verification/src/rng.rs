//! Seed and key derivation: an avalanche mixer, a byte-folding text seed,
//! the process-wide default seed, and the per-call-site entropy derivation
//! that combines them. All of them are pure functions of their inputs, so
//! a call site is handed the same key on every run.

use vstd::prelude::*;
use vstd::string::StringSliceAdditionalSpecFns;

verus! {

/// What `xxhash_mix` computes: three rounds of xor-shift and odd-constant
/// multiplication.
pub open spec fn spec_xxhash_mix(x: u64) -> u64 {
    let a = x ^ (x >> 33u64);
    let b = a.wrapping_mul(0xc2b2ae3d27d4eb4fu64);
    let c = b ^ (b >> 29u64);
    let d = c.wrapping_mul(0x165667b19e3779f9u64);
    d ^ (d >> 32u64)
}

/// Avalanche mixer used as the final step of key derivation.
pub fn xxhash_mix(x: u64) -> (r: u64)
    ensures
        r == spec_xxhash_mix(x),
{
    let a = x ^ (x >> 33u64);
    let b = a.wrapping_mul(0xc2b2ae3d27d4eb4fu64);
    let c = b ^ (b >> 29u64);
    let d = c.wrapping_mul(0x165667b19e3779f9u64);
    d ^ (d >> 32u64)
}

/// One byte folded into the text-seed accumulator: the byte is shifted
/// into one of eight lanes chosen by its position, then the state is
/// multiplied by a fixed odd constant.
pub open spec fn spec_siphash_step(h: u64, b: u8, i: nat) -> u64 {
    (h ^ (b as u64).wrapping_shl((((i % 8) * 8) as u32))).wrapping_mul(0x517cc1b727220a95u64)
}

/// The text-seed accumulator after folding in `s[i..]`, starting from `h`.
pub open spec fn spec_siphash_fold(h: u64, s: Seq<u8>, i: nat) -> u64
    decreases s.len() - i,
{
    if i < s.len() {
        spec_siphash_fold(spec_siphash_step(h, s[i as int], i), s, i + 1)
    } else {
        h
    }
}

/// What `siphash_seed` computes over a text's bytes.
pub open spec fn spec_siphash_seed(s: Seq<u8>) -> u64 {
    spec_siphash_fold(0x736f6d6570736575u64, s, 0)
}

/// Derives a 64-bit seed from a text, folding each byte into one of
/// eight lanes before an odd-constant multiply.
pub fn siphash_seed(a: &str) -> (r: u64)
    ensures
        r == spec_siphash_seed(a.spec_bytes()),
{
    let bytes = a.as_bytes();
    let ghost s = a.spec_bytes();
    let mut h: u64 = 0x736f6d6570736575u64;
    let mut i: usize = 0;
    while i < bytes.len()
        invariant
            i <= s.len(),
            bytes@ == s,
            spec_siphash_seed(s) == spec_siphash_fold(h, s, i as nat),
        decreases s.len() - i,
    {
        let lane = ((i % 8) * 8) as u32;
        h = (h ^ (bytes[i] as u64).wrapping_shl(lane)).wrapping_mul(0x517cc1b727220a95u64);
        i = i + 1;
    }
    h
}

/// The process-wide default seed: the avalanche mix of a fixed fallback
/// constant. A deployment that configures an override string derives its
/// seed from that string with `siphash_seed` instead.
pub open spec fn spec_global_seed() -> u64 {
    spec_xxhash_mix(0x1234567890abcdefu64)
}

/// Returns the process-wide default seed. Pure, so every call in a
/// process returns the same value.
pub fn global_seed() -> (r: u64)
    ensures
        r == spec_global_seed(),
{
    xxhash_mix(0x1234567890abcdefu64)
}

/// What `gen_entropy_with` computes from a process seed and a call-site
/// token's bytes.
pub open spec fn spec_gen_entropy_with(seed: u64, s: Seq<u8>) -> u64 {
    spec_xxhash_mix(spec_siphash_seed(s) ^ seed)
}

/// What `gen_entropy` computes from a call-site token's bytes.
pub open spec fn spec_gen_entropy(s: Seq<u8>) -> u64 {
    spec_gen_entropy_with(spec_global_seed(), s)
}

/// Derives a pseudo-random 64-bit value from an explicit process seed and
/// a call-site token. Callers that configure an override seed pass it
/// here; `gen_entropy` uses the built-in default.
pub fn gen_entropy_with(seed: u64, input: &str) -> (r: u64)
    ensures
        r == spec_gen_entropy_with(seed, input.spec_bytes()),
{
    let base = siphash_seed(input);
    xxhash_mix(base ^ seed)
}

/// Derives a pseudo-random 64-bit value per call site from the default
/// process seed mixed with the call-site token.
pub fn gen_entropy(input: &str) -> (r: u64)
    ensures
        r == spec_gen_entropy(input.spec_bytes()),
{
    let base = siphash_seed(input);
    xxhash_mix(base ^ global_seed())
}

} // verus!
