//! Deterministic non-cryptographic hashes used for fingerprinting and as
//! building blocks for seed derivation: a block-mixing hash over 4-byte
//! little-endian words with a byte-wise tail pass, and a simple
//! polynomial-style rolling hash over text.

use vstd::prelude::*;
use vstd::string::StringSliceAdditionalSpecFns;
use crate::spec_rotl32;

verus! {

/// A 32-bit word read little-endian from four bytes.
pub open spec fn spec_le32(b0: u8, b1: u8, b2: u8, b3: u8) -> u32 {
    (b0 as u32) | ((b1 as u32) << 8u32) | ((b2 as u32) << 16u32) | ((b3 as u32) << 24u32)
}

/// One 4-byte word mixed into the block hash state.
pub open spec fn spec_xxh_word_step(h: u32, k: u32) -> u32 {
    spec_rotl32(h.wrapping_add(k.wrapping_mul(0xc2b2ae3du32)), 17).wrapping_mul(0x27d4eb2fu32)
}

/// One tail byte mixed into the block hash state.
pub open spec fn spec_xxh_byte_step(h: u32, b: u8) -> u32 {
    spec_rotl32(h.wrapping_add((b as u32).wrapping_mul(0x165667b1u32)), 11).wrapping_mul(
        0x9e3779b1u32,
    )
}

/// The block hash state after consuming all whole 4-byte words of `s[i..]`.
pub open spec fn spec_xxh_words(h: u32, s: Seq<u8>, i: nat) -> u32
    decreases s.len() - i,
{
    if i + 4 <= s.len() {
        spec_xxh_words(
            spec_xxh_word_step(
                h,
                spec_le32(s[i as int], s[i as int + 1], s[i as int + 2], s[i as int + 3]),
            ),
            s,
            i + 4,
        )
    } else {
        h
    }
}

/// The index at which the word pass leaves off: the largest multiple of 4
/// not past the end.
pub open spec fn spec_xxh_tail_start(len: nat) -> nat {
    (len - (len % 4)) as nat
}

/// The block hash state after consuming the 0 to 3 tail bytes `s[i..]`.
pub open spec fn spec_xxh_bytes(h: u32, s: Seq<u8>, i: nat) -> u32
    decreases s.len() - i,
{
    if i < s.len() {
        spec_xxh_bytes(spec_xxh_byte_step(h, s[i as int]), s, i + 1)
    } else {
        h
    }
}

/// The final length mix and three avalanche rounds.
pub open spec fn spec_xxh_final(h0: u32, len: nat) -> u32 {
    let h = h0.wrapping_add(((len % 0x1_0000_0000) as u32));
    let h1 = (h ^ (h >> 15u32)).wrapping_mul(0x85ebca77u32);
    let h2 = (h1 ^ (h1 >> 13u32)).wrapping_mul(0xc2b2ae3du32);
    h2 ^ (h2 >> 16u32)
}

/// What `xxhash32` computes over a byte sequence and a seed.
pub open spec fn spec_xxhash32(s: Seq<u8>, seed: u32) -> u32 {
    let h0 = seed.wrapping_add(0x165667b1u32);
    let hw = spec_xxh_words(h0, s, 0);
    let hb = spec_xxh_bytes(hw, s, spec_xxh_tail_start(s.len()));
    spec_xxh_final(hb, s.len())
}

/// One 4-byte word mixed into the running state.
fn xxh_word_mix(h: u32, k: u32) -> (r: u32)
    ensures
        r == spec_xxh_word_step(h, k),
{
    let hk = h.wrapping_add(k.wrapping_mul(0xc2b2ae3du32));
    ((hk << 17u32) | (hk >> 15u32)).wrapping_mul(0x27d4eb2fu32)
}

/// One tail byte mixed into the running state.
fn xxh_byte_mix(h: u32, b: u8) -> (r: u32)
    ensures
        r == spec_xxh_byte_step(h, b),
{
    let hb = h.wrapping_add((b as u32).wrapping_mul(0x165667b1u32));
    ((hb << 11u32) | (hb >> 21u32)).wrapping_mul(0x9e3779b1u32)
}

/// Block-mixing hash: 4-byte little-endian words with a multiply-rotate-
/// multiply step, a byte-wise tail pass, a length mix, and three rounds
/// of xor-shift and multiply. Deterministic in `(data, seed)`.
pub fn xxhash32(data: &[u8], seed: u32) -> (r: u32)
    ensures
        r == spec_xxhash32(data@, seed),
{
    let ghost s = data@;
    let mut h: u32 = seed.wrapping_add(0x165667b1u32);
    let ghost h0 = h;
    let mut i: usize = 0;
    while data.len() - i >= 4
        invariant
            i <= s.len(),
            data@ == s,
            spec_xxh_words(h0, s, 0) == spec_xxh_words(h, s, i as nat),
            i % 4 == 0,
        decreases s.len() - i,
    {
        let k = (data[i] as u32) | ((data[i + 1] as u32) << 8u32) | ((data[i + 2] as u32)
            << 16u32) | ((data[i + 3] as u32) << 24u32);
        proof {
            assert(k == spec_le32(s[i as int], s[i as int + 1], s[i as int + 2], s[i as int + 3]));
            assert(spec_xxh_words(h, s, i as nat) == spec_xxh_words(
                spec_xxh_word_step(h, k),
                s,
                i as nat + 4,
            ));
        }
        h = xxh_word_mix(h, k);
        i = i + 4;
    }
    proof {
        let len = s.len() as int;
        let q = i as int / 4;
        vstd::arithmetic::div_mod::lemma_fundamental_div_mod(i as int, 4);
        vstd::arithmetic::div_mod::lemma_mod_multiples_vanish(q, len - i, 4);
        vstd::arithmetic::div_mod::lemma_small_mod((len - i) as nat, 4);
        assert(i as nat == spec_xxh_tail_start(s.len()));
        assert(spec_xxh_words(h, s, i as nat) == h);
    }
    let ghost hw = h;
    while i < data.len()
        invariant
            i <= s.len(),
            data@ == s,
            spec_xxh_bytes(hw, s, spec_xxh_tail_start(s.len())) == spec_xxh_bytes(h, s, i as nat),
        decreases s.len() - i,
    {
        h = xxh_byte_mix(h, data[i]);
        i = i + 1;
    }
    let len32 = ((data.len() as u64) % 0x1_0000_0000u64) as u32;
    h = h.wrapping_add(len32);
    h = (h ^ (h >> 15u32)).wrapping_mul(0x85ebca77u32);
    h = (h ^ (h >> 13u32)).wrapping_mul(0xc2b2ae3du32);
    h ^ (h >> 16u32)
}

/// One byte folded into the rolling text hash:
/// `hash = byte + hash * 64 + hash * 65536 - hash`, all modulo `2^32`.
pub open spec fn spec_sdbm_step(h: u32, b: u8) -> u32 {
    (b as u32).wrapping_add(h.wrapping_shl(6)).wrapping_add(h.wrapping_shl(16)).wrapping_sub(h)
}

/// The rolling text hash state after consuming `s[i..]`, starting from `h`.
pub open spec fn spec_sdbm_fold(h: u32, s: Seq<u8>, i: nat) -> u32
    decreases s.len() - i,
{
    if i < s.len() {
        spec_sdbm_fold(spec_sdbm_step(h, s[i as int]), s, i + 1)
    } else {
        h
    }
}

/// What `sdbm_hash` computes over a text's bytes.
pub open spec fn spec_sdbm_hash(s: Seq<u8>) -> u32 {
    spec_sdbm_fold(0, s, 0)
}

/// Polynomial-style rolling hash over a text's bytes. Deterministic and
/// total.
pub fn sdbm_hash(s: &str) -> (r: u32)
    ensures
        r == spec_sdbm_hash(s.spec_bytes()),
{
    let bytes = s.as_bytes();
    let ghost bs = s.spec_bytes();
    let mut hash: u32 = 0;
    let mut i: usize = 0;
    while i < bytes.len()
        invariant
            i <= bs.len(),
            bytes@ == bs,
            spec_sdbm_hash(bs) == spec_sdbm_fold(hash, bs, i as nat),
        decreases bs.len() - i,
    {
        hash = (bytes[i] as u32).wrapping_add(hash.wrapping_shl(6)).wrapping_add(
            hash.wrapping_shl(16),
        ).wrapping_sub(hash);
        i = i + 1;
    }
    hash
}

} // verus!
