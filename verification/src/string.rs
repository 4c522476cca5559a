//! Stream-cipher-style literal protection: a permutation-style keystream
//! generator producing four bytes per step, and xor-based encryption and
//! decryption of fixed-length byte buffers. Decryption routes every byte
//! through an observed (optimizer-opaque) read, so the reconstructed
//! plaintext is materialized at each call and cannot be folded into a
//! compile-time constant.

use vstd::prelude::*;
use vstd::arithmetic::div_mod::lemma_fundamental_div_mod;
use vstd::arithmetic::div_mod::lemma_fundamental_div_mod_converse;

verus! {

/// What one `pcg_step` computes: an xor-shift and multiply permutation of
/// the 32-bit state.
pub open spec fn spec_pcg_step(state: u32) -> u32 {
    let s = state.wrapping_mul(747796405u32).wrapping_add(2891336453u32);
    let word = ((s >> (((s >> 28u32) + 4) as u32)) ^ s).wrapping_mul(277803737u32);
    (word >> 22u32) ^ word
}

/// The generator state after `n` steps from `seed`.
pub open spec fn spec_pcg_iter(seed: u32, n: nat) -> u32
    decreases n,
{
    if n == 0 {
        seed
    } else {
        spec_pcg_step(spec_pcg_iter(seed, (n - 1) as nat))
    }
}

/// Byte `i` of the keystream generated from `seed`: the little-endian
/// byte `i % 4` of the state after `i / 4 + 1` steps.
pub open spec fn spec_keystream_byte(seed: u32, i: nat) -> u8 {
    (spec_pcg_iter(seed, i / 4 + 1) >> (((i % 4) * 8) as u32)) as u8
}

/// The keystream of length `n` generated from `seed`.
pub open spec fn spec_keystream(seed: u32, n: nat) -> Seq<u8> {
    Seq::new(n, |i: int| spec_keystream_byte(seed, i as nat))
}

/// Pointwise xor of two equal-length byte sequences.
pub open spec fn spec_xor_bytes(data: Seq<u8>, keys: Seq<u8>) -> Seq<u8>
    recommends
        data.len() == keys.len(),
{
    Seq::new(data.len(), |i: int| data[i] ^ keys[i])
}

/// Xor-based stream encryption is an involution: encrypting (or
/// decrypting) twice with the same keystream returns the original data.
pub proof fn lemma_xor_bytes_involution(data: Seq<u8>, keys: Seq<u8>)
    requires
        data.len() == keys.len(),
    ensures
        spec_xor_bytes(spec_xor_bytes(data, keys), keys) == data,
{
    let once = spec_xor_bytes(data, keys);
    let twice = spec_xor_bytes(once, keys);
    assert forall|i: int| 0 <= i < data.len() implies twice[i] == data[i] by {
        let d = data[i];
        let k = keys[i];
        assert((d ^ k) ^ k == d) by (bit_vector);
    };
    assert(twice =~= data);
}

/// Advances the permutation-style generator state by one step.
fn pcg_step(state: u32) -> (r: u32)
    ensures
        r == spec_pcg_step(state),
{
    let s = state.wrapping_mul(747796405u32).wrapping_add(2891336453u32);
    proof {
        assert(s >> 28u32 <= 15) by (bit_vector);
    }
    let shift = (s >> 28u32) + 4;
    let word = ((s >> shift) ^ s).wrapping_mul(277803737u32);
    (word >> 22u32) ^ word
}

/// Generates `n` pseudo-random keystream bytes from `seed`: each
/// generator step yields four little-endian bytes, truncated to `n`.
pub fn gen_keystream(seed: u32, n: usize) -> (r: Vec<u8>)
    ensures
        r@ == spec_keystream(seed, n as nat),
{
    let mut keys: Vec<u8> = Vec::new();
    let mut state = seed;
    let full: usize = n / 4;
    let mut b: usize = 0;
    while b < full
        invariant
            b <= full,
            full == n / 4,
            keys@.len() == 4 * b,
            state == spec_pcg_iter(seed, b as nat),
            forall|k: int| 0 <= k < 4 * b ==> keys@[k] == spec_keystream_byte(seed, k as nat),
        decreases full - b,
    {
        state = pcg_step(state);
        keys.push((state >> 0u32) as u8);
        keys.push((state >> 8u32) as u8);
        keys.push((state >> 16u32) as u8);
        keys.push((state >> 24u32) as u8);
        proof {
            let base = 4 * (b as int);
            lemma_fundamental_div_mod_converse(base + 0, 4, b as int, 0);
            lemma_fundamental_div_mod_converse(base + 1, 4, b as int, 1);
            lemma_fundamental_div_mod_converse(base + 2, 4, b as int, 2);
            lemma_fundamental_div_mod_converse(base + 3, 4, b as int, 3);
        }
        b = b + 1;
    }
    proof {
        lemma_fundamental_div_mod(n as int, 4);
    }
    let rem = n % 4;
    if rem > 0 {
        state = pcg_step(state);
        proof {
            let base = 4 * (full as int);
            lemma_fundamental_div_mod_converse(base + 0, 4, full as int, 0);
            lemma_fundamental_div_mod_converse(base + 1, 4, full as int, 1);
            lemma_fundamental_div_mod_converse(base + 2, 4, full as int, 2);
        }
        keys.push((state >> 0u32) as u8);
        if rem > 1 {
            keys.push((state >> 8u32) as u8);
        }
        if rem > 2 {
            keys.push((state >> 16u32) as u8);
        }
    }
    proof {
        assert(keys@ =~= spec_keystream(seed, n as nat));
    }
    keys
}

/// Element-wise xor of a buffer against an equal-length keystream.
pub fn encrypt_bytes(data: &[u8], keys: &[u8]) -> (r: Vec<u8>)
    requires
        data@.len() == keys@.len(),
    ensures
        r@ == spec_xor_bytes(data@, keys@),
{
    let mut result: Vec<u8> = Vec::new();
    let mut i: usize = 0;
    while i < data.len()
        invariant
            i <= data@.len(),
            data@.len() == keys@.len(),
            result@.len() == i,
            forall|k: int| 0 <= k < i ==> result@[k] == (data@[k] ^ keys@[k]),
        decreases data@.len() - i,
    {
        result.push(data[i] ^ keys[i]);
        i = i + 1;
    }
    proof {
        assert(result@ =~= spec_xor_bytes(data@, keys@));
    }
    result
}

/// Relies on std::hint::black_box: it returns its argument unchanged
/// while remaining opaque to the optimizer, forcing the read and the
/// write of each decrypted byte to be observable.
#[verifier::external_body]
fn observed_byte(b: u8) -> (r: u8)
    ensures
        r == b,
{
    std::hint::black_box(b)
}

/// Element-wise xor of an encrypted buffer against an equal-length
/// keystream, through observed reads that the optimizer cannot fold into
/// a compile-time constant or eliminate as dead code.
pub fn decrypt_bytes(data: &[u8], keys: &[u8]) -> (r: Vec<u8>)
    requires
        data@.len() == keys@.len(),
    ensures
        r@ == spec_xor_bytes(data@, keys@),
{
    let mut result: Vec<u8> = Vec::new();
    let mut i: usize = 0;
    while i < data.len()
        invariant
            i <= data@.len(),
            data@.len() == keys@.len(),
            result@.len() == i,
            forall|k: int| 0 <= k < i ==> result@[k] == (data@[k] ^ keys@[k]),
        decreases data@.len() - i,
    {
        let enc = observed_byte(data[i]);
        result.push(enc ^ keys[i]);
        i = i + 1;
    }
    proof {
        assert(result@ =~= spec_xor_bytes(data@, keys@));
    }
    result
}

/// Decrypting an encrypted buffer with the same keystream returns the
/// original data.
pub proof fn lemma_decrypt_encrypt_roundtrip(data: Seq<u8>, keys: Seq<u8>)
    requires
        data.len() == keys.len(),
    ensures
        spec_xor_bytes(spec_xor_bytes(data, keys), keys) == data,
{
    lemma_xor_bytes_involution(data, keys);
}

} // verus!
