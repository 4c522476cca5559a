//! Control-flow key schedule: derives one 32-bit key per statement text
//! from a base value, folding each statement's bytes into a running state
//! and rotating the state between statements. Identical statement lists
//! always produce identical keys.

use vstd::prelude::*;
use vstd::string::StringSliceAdditionalSpecFns;
use crate::spec_rotl32;

verus! {

/// One byte folded into the flow state: the byte is shifted into one of
/// four lanes chosen by its position, then the state is multiplied by a
/// fixed odd constant.
pub open spec fn spec_flow_step(state: u32, b: u8, j: nat) -> u32 {
    (state ^ (b as u32).wrapping_shl((((j % 4) * 8) as u32))).wrapping_mul(0x27d4eb2du32)
}

/// The flow state after folding in the statement bytes `s[j..]`.
pub open spec fn spec_flow_absorb(state: u32, s: Seq<u8>, j: nat) -> u32
    decreases s.len() - j,
{
    if j < s.len() {
        spec_flow_absorb(spec_flow_step(state, s[j as int], j), s, j + 1)
    } else {
        state
    }
}

/// The flow state just before statement `i` is absorbed: the base value
/// for the first statement, else the previous state absorbed and rotated.
pub open spec fn spec_flow_state(base: u32, stmts: Seq<Seq<u8>>, i: nat) -> u32
    decreases i,
{
    if i == 0 {
        base
    } else {
        spec_rotl32(
            spec_flow_absorb(spec_flow_state(base, stmts, (i - 1) as nat), stmts[i - 1], 0),
            13,
        )
    }
}

/// The key derived for statement `i`.
pub open spec fn spec_flow_key(base: u32, stmts: Seq<Seq<u8>>, i: nat) -> u32 {
    spec_flow_absorb(spec_flow_state(base, stmts, i), stmts[i as int], 0)
}

/// The byte sequences of a list of statement texts.
pub open spec fn spec_stmt_bytes(stmts: Seq<&str>) -> Seq<Seq<u8>> {
    Seq::new(stmts.len(), |i: int| stmts[i].spec_bytes())
}

/// Derives one 32-bit key per statement from a base value: each
/// statement's bytes are folded into the running state, the state is the
/// statement's key, and the state rotates before the next statement.
pub fn gen_flow_keys(base: u32, stmts: &[&str]) -> (r: Vec<u32>)
    ensures
        r@.len() == stmts@.len(),
        forall|i: int|
            0 <= i < stmts@.len() ==> r@[i] == spec_flow_key(base, spec_stmt_bytes(stmts@), i as nat),
{
    let ghost sb = spec_stmt_bytes(stmts@);
    let mut keys: Vec<u32> = Vec::new();
    let mut state = base;
    let mut i: usize = 0;
    while i < stmts.len()
        invariant
            i <= stmts@.len(),
            sb == spec_stmt_bytes(stmts@),
            keys@.len() == i,
            state == spec_flow_state(base, sb, i as nat),
            forall|k: int| 0 <= k < i ==> keys@[k] == spec_flow_key(base, sb, k as nat),
        decreases stmts@.len() - i,
    {
        let stmt_bytes = stmts[i].as_bytes();
        let ghost s = stmts[i as int].spec_bytes();
        proof {
            assert(sb[i as int] == s);
        }
        let mut j: usize = 0;
        while j < stmt_bytes.len()
            invariant
                j <= s.len(),
                stmt_bytes@ == s,
                spec_flow_absorb(state, s, j as nat) == spec_flow_key(base, sb, i as nat),
            decreases s.len() - j,
        {
            let lane = ((j % 4) * 8) as u32;
            state = (state ^ (stmt_bytes[j] as u32).wrapping_shl(lane)).wrapping_mul(0x27d4eb2du32);
            j = j + 1;
        }
        keys.push(state);
        state = (state << 13u32) | (state >> 19u32);
        i = i + 1;
    }
    keys
}

} // verus!
