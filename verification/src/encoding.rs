//! Reversible integer transforms: each encode pipeline is a fixed order of
//! individually invertible steps (xor with a key, multiply by an odd
//! constant, rotate, xor with a fixed constant), and each decode applies
//! the exact inverse steps in mirrored order. The decode multipliers are
//! the modular inverses of the encode multipliers, so the round trip
//! holds for every value and every key of the matching width.

use vstd::prelude::*;
use vstd::arithmetic::div_mod::lemma_mul_mod_noop_left;
use vstd::arithmetic::div_mod::lemma_mul_mod_noop_right;
use vstd::arithmetic::div_mod::lemma_small_mod;
use vstd::arithmetic::mul::lemma_mul_is_associative;
use crate::spec_rotl32;
use crate::spec_rotr32;
use crate::spec_rotl64;
use crate::spec_rotr64;

verus! {

/// Rotating left then right by the same amount returns the input word.
pub proof fn lemma_rot32_roundtrip(x: u32, n: u32)
    requires
        0 < n < 32,
    ensures
        spec_rotr32(spec_rotl32(x, n), n) == x,
{
    assert(spec_rotr32(spec_rotl32(x, n), n) == x) by (bit_vector)
        requires
            0 < n < 32,
    ;
}

/// Rotating left then right by the same amount returns the input word.
pub proof fn lemma_rot64_roundtrip(x: u64, n: u64)
    requires
        0 < n < 64,
    ensures
        spec_rotr64(spec_rotl64(x, n), n) == x,
{
    assert(spec_rotr64(spec_rotl64(x, n), n) == x) by (bit_vector)
        requires
            0 < n < 64,
    ;
}

/// Multiplying by an odd constant and then by its modular inverse
/// returns the input word.
proof fn lemma_wmul_undo_u32(x: u32, a: u32, inv: u32)
    requires
        (a as int) * (inv as int) % 0x1_0000_0000 == 1,
    ensures
        x.wrapping_mul(a).wrapping_mul(inv) == x,
{
    let m = 0x1_0000_0000int;
    let p = (x as int) * (a as int);
    let q = x.wrapping_mul(a);
    assert(q == p % m);
    lemma_mul_mod_noop_left(p, inv as int, m);
    lemma_mul_is_associative(x as int, a as int, inv as int);
    lemma_mul_mod_noop_right(x as int, (a as int) * (inv as int), m);
    lemma_small_mod(x as nat, 0x1_0000_0000nat);
}

/// Multiplying by an odd constant and then by its modular inverse
/// returns the input word.
proof fn lemma_wmul_undo_u64(x: u64, a: u64, inv: u64)
    requires
        (a as int) * (inv as int) % 0x1_0000_0000_0000_0000 == 1,
    ensures
        x.wrapping_mul(a).wrapping_mul(inv) == x,
{
    let m = 0x1_0000_0000_0000_0000int;
    let p = (x as int) * (a as int);
    let q = x.wrapping_mul(a);
    assert(q == p % m);
    lemma_mul_mod_noop_left(p, inv as int, m);
    lemma_mul_is_associative(x as int, a as int, inv as int);
    lemma_mul_mod_noop_right(x as int, (a as int) * (inv as int), m);
    lemma_small_mod(x as nat, 0x1_0000_0000_0000_0000nat);
}

/// What `mba_encode_u32` computes.
pub open spec fn spec_mba_encode_u32(val: u32, key: u32) -> u32 {
    let a = val ^ key;
    let b = a.wrapping_mul(0x9e3779b1u32);
    let c = spec_rotl32(b, 13);
    c ^ 0xdeadbeefu32
}

/// What `mba_decode_u32` computes.
pub open spec fn spec_mba_decode_u32(val: u32, key: u32) -> u32 {
    let d = val ^ 0xdeadbeefu32;
    let c = spec_rotr32(d, 13);
    let b = c.wrapping_mul(0x0e8b2f51u32);
    b ^ key
}

pub fn mba_encode_u32(val: u32, key: u32) -> (r: u32)
    ensures
        r == spec_mba_encode_u32(val, key),
{
    let a = val ^ key;
    let b = a.wrapping_mul(0x9e3779b1u32);
    let c = (b << 13u32) | (b >> 19u32);
    c ^ 0xdeadbeefu32
}

pub fn mba_decode_u32(val: u32, key: u32) -> (r: u32)
    ensures
        r == spec_mba_decode_u32(val, key),
{
    let d = val ^ 0xdeadbeefu32;
    let c = (d >> 13u32) | (d << 19u32);
    let b = c.wrapping_mul(0x0e8b2f51u32);
    b ^ key
}

/// Decoding inverts encoding for every 32-bit value and key.
pub proof fn lemma_mba_u32_roundtrip(val: u32, key: u32)
    ensures
        spec_mba_decode_u32(spec_mba_encode_u32(val, key), key) == val,
{
    let a = val ^ key;
    let b = a.wrapping_mul(0x9e3779b1u32);
    let c = spec_rotl32(b, 13);
    assert((c ^ 0xdeadbeefu32) ^ 0xdeadbeefu32 == c) by (bit_vector);
    lemma_rot32_roundtrip(b, 13);
    assert(0x9e3779b1int * 0x0e8b2f51int == 0x8fd0e0500000001int);
    lemma_wmul_undo_u32(a, 0x9e3779b1u32, 0x0e8b2f51u32);
    assert((val ^ key) ^ key == val) by (bit_vector);
}

/// What `mba_encode_u64` computes.
pub open spec fn spec_mba_encode_u64(val: u64, key: u64) -> u64 {
    let a = val ^ key;
    let b = a.wrapping_mul(0x517cc1b727220a95u64);
    let c = spec_rotl64(b, 31);
    c ^ 0xcafebabe12345678u64
}

/// What `mba_decode_u64` computes.
pub open spec fn spec_mba_decode_u64(val: u64, key: u64) -> u64 {
    let d = val ^ 0xcafebabe12345678u64;
    let c = spec_rotr64(d, 31);
    let b = c.wrapping_mul(0x2040003d780970bdu64);
    b ^ key
}

pub fn mba_encode_u64(val: u64, key: u64) -> (r: u64)
    ensures
        r == spec_mba_encode_u64(val, key),
{
    let a = val ^ key;
    let b = a.wrapping_mul(0x517cc1b727220a95u64);
    let c = (b << 31u64) | (b >> 33u64);
    c ^ 0xcafebabe12345678u64
}

pub fn mba_decode_u64(val: u64, key: u64) -> (r: u64)
    ensures
        r == spec_mba_decode_u64(val, key),
{
    let d = val ^ 0xcafebabe12345678u64;
    let c = (d >> 31u64) | (d << 33u64);
    let b = c.wrapping_mul(0x2040003d780970bdu64);
    b ^ key
}

/// Decoding inverts encoding for every 64-bit value and key.
pub proof fn lemma_mba_u64_roundtrip(val: u64, key: u64)
    ensures
        spec_mba_decode_u64(spec_mba_encode_u64(val, key), key) == val,
{
    let a = val ^ key;
    let b = a.wrapping_mul(0x517cc1b727220a95u64);
    let c = spec_rotl64(b, 31);
    assert((c ^ 0xcafebabe12345678u64) ^ 0xcafebabe12345678u64 == c) by (bit_vector);
    lemma_rot64_roundtrip(b, 31);
    assert(0x517cc1b727220a95int * 0x2040003d780970bdint
        == 0xa43f77ae39dae8d0000000000000001int);
    lemma_wmul_undo_u64(a, 0x517cc1b727220a95u64, 0x2040003d780970bdu64);
    assert((val ^ key) ^ key == val) by (bit_vector);
}

/// What `runtime_encode` computes: a fixed-key variant for values whose
/// key cannot be resolved ahead of time.
pub open spec fn spec_runtime_encode(val: u64) -> u64 {
    spec_rotl64(val.wrapping_mul(0x9e3779b97f4a7c15u64), 7) ^ 0xdeadbeefu64
}

/// What `runtime_decode` computes.
pub open spec fn spec_runtime_decode(val: u64) -> u64 {
    spec_rotr64(val ^ 0xdeadbeefu64, 7).wrapping_mul(0xf1de83e19937733du64)
}

pub fn runtime_encode(val: u64) -> (r: u64)
    ensures
        r == spec_runtime_encode(val),
{
    let key = 0x9e3779b97f4a7c15u64;
    let b = val.wrapping_mul(key);
    ((b << 7u64) | (b >> 57u64)) ^ 0xdeadbeefu64
}

pub fn runtime_decode(val: u64) -> (r: u64)
    ensures
        r == spec_runtime_decode(val),
{
    let key_inv = 0xf1de83e19937733du64;
    let d = val ^ 0xdeadbeefu64;
    ((d >> 7u64) | (d << 57u64)).wrapping_mul(key_inv)
}

/// The fixed-key runtime transform round-trips for every 64-bit value.
pub proof fn lemma_runtime_roundtrip(val: u64)
    ensures
        spec_runtime_decode(spec_runtime_encode(val)) == val,
{
    let b = val.wrapping_mul(0x9e3779b97f4a7c15u64);
    let c = spec_rotl64(b, 7);
    assert((c ^ 0xdeadbeefu64) ^ 0xdeadbeefu64 == c) by (bit_vector);
    lemma_rot64_roundtrip(b, 7);
    assert(0x9e3779b97f4a7c15int * 0xf1de83e19937733dint
        == 0x957bbf35006ed6770000000000000001int);
    lemma_wmul_undo_u64(val, 0x9e3779b97f4a7c15u64, 0xf1de83e19937733du64);
}

} // verus!
