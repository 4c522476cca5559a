//! Offset mangling for reference obfuscation: a seed-keyed bit mixer maps
//! a small offset to a masked 16-bit displacement. A caller subtracts the
//! mangled displacement from an address to form an opaque base and later
//! adds the identical displacement back, so the net effect on the address
//! is the identity while the direct address-of relationship disappears
//! from the compiled artifact.

use vstd::prelude::*;

verus! {

/// What `ptr_mangle` computes: xor with the seed, two odd-constant
/// multiplies around an xor-shift, masked to 16 bits.
pub open spec fn spec_ptr_mangle(seed: u64, offset: u32) -> usize {
    let v0 = (offset as u64) ^ seed;
    let v1 = v0.wrapping_mul(0x517cc1b727220a95u64);
    let v2 = v1 ^ (v1 >> 27u64);
    let v3 = v2.wrapping_mul(0x94d049bb133111ebu64);
    (v3 & 0xffff) as usize
}

/// Mangles an offset under a seed into a masked displacement of at most
/// 16 bits. The mask intentionally limits the representable range:
/// callers must keep true offsets within it.
pub fn ptr_mangle(seed: u64, offset: u32) -> (r: usize)
    ensures
        r == spec_ptr_mangle(seed, offset),
        r <= 0xffff,
{
    let v0 = (offset as u64) ^ seed;
    let v1 = v0.wrapping_mul(0x517cc1b727220a95u64);
    let v2 = v1 ^ (v1 >> 27u64);
    let v3 = v2.wrapping_mul(0x94d049bb133111ebu64);
    proof {
        assert(v3 & 0xffff <= 0xffff) by (bit_vector);
    }
    (v3 & 0xffff) as usize
}

/// Subtracting a mangled displacement from an address value and adding
/// the same displacement back returns the original address, even when
/// the subtraction wraps: the round trip through an opaque base is the
/// identity.
pub proof fn lemma_mangle_restore(addr: u64, seed: u64, offset: u32)
    ensures
        addr.wrapping_sub(spec_ptr_mangle(seed, offset) as u64).wrapping_add(
            spec_ptr_mangle(seed, offset) as u64,
        ) == addr,
{
    let m = spec_ptr_mangle(seed, offset) as u64;
    assert(addr.wrapping_sub(m).wrapping_add(m) == addr);
}

} // verus!
