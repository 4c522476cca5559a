//! Wide-text codec: lenient UTF-8 decoding, UTF-16 encoding with
//! surrogate pairs for codepoints at or above 0x10000, a 16-bit-unit
//! keystream generator, and xor-based encryption of wide literals.
//! Malformed lead bytes are consumed one byte at a time and ignored, so
//! the decode never fails.

use vstd::prelude::*;
use vstd::string::StringSliceAdditionalSpecFns;

verus! {

/// How many bytes a UTF-8 sequence starting with `b` claims: 1 for an
/// ASCII or unrecognized lead byte, 2 to 4 for multi-byte lead bytes.
pub open spec fn spec_utf8_char_len(b: u8) -> nat {
    if b & 0x80 == 0x00 {
        1
    } else if b & 0xe0 == 0xc0 {
        2
    } else if b & 0xf0 == 0xe0 {
        3
    } else if b & 0xf8 == 0xf0 {
        4
    } else {
        1
    }
}

/// The codepoint encoded by the `len`-byte UTF-8 sequence at `s[i..]`.
pub open spec fn spec_utf8_char_at(s: Seq<u8>, i: nat, len: nat) -> u32
    recommends
        i + len <= s.len(),
        1 <= len <= 4,
{
    if len == 1 {
        s[i as int] as u32
    } else if len == 2 {
        (((s[i as int] & 0x1f) as u32) << 6u32) | ((s[i as int + 1] & 0x3f) as u32)
    } else if len == 3 {
        (((s[i as int] & 0x0f) as u32) << 12u32) | (((s[i as int + 1] & 0x3f) as u32) << 6u32) | ((
        s[i as int + 2] & 0x3f) as u32)
    } else {
        (((s[i as int] & 0x07) as u32) << 18u32) | (((s[i as int + 1] & 0x3f) as u32) << 12u32) | ((
        (s[i as int + 2] & 0x3f) as u32) << 6u32) | ((s[i as int + 3] & 0x3f) as u32)
    }
}

/// The lenient UTF-8 decode at offset `i`: the codepoint and its byte
/// length, or `None` at the end of the input or on a truncated sequence.
pub open spec fn spec_decode_utf8_at(s: Seq<u8>, i: nat) -> Option<(u32, nat)> {
    if i >= s.len() {
        None
    } else {
        let len = spec_utf8_char_len(s[i as int]);
        if s.len() - i < len {
            None
        } else {
            Some((spec_utf8_char_at(s, i, len), len))
        }
    }
}

/// The UTF-16 code units of one codepoint: itself when below 0x10000,
/// else a high and a low surrogate.
pub open spec fn spec_utf16_of_char(chr: u32) -> Seq<u16>
    recommends
        chr < 0x200000,
{
    if chr >= 0x10000 {
        let code = (chr - 0x10000) as u32;
        seq![
            ((0xd800 + (code >> 10u32)) as u16),
            ((0xdc00 + (code & 0x3ffu32)) as u16),
        ]
    } else {
        seq![(chr as u16)]
    }
}

/// The number of UTF-16 code units needed for the text bytes `s[i..]`,
/// decoding leniently.
pub open spec fn spec_utf16_len_from(s: Seq<u8>, i: nat) -> nat
    decreases s.len() - i,
{
    if i >= s.len() {
        0
    } else {
        match spec_decode_utf8_at(s, i) {
            Some((chr, step)) => (if chr >= 0x10000 {
                2nat
            } else {
                1nat
            }) + spec_utf16_len_from(s, i + step),
            None => spec_utf16_len_from(s, i + 1),
        }
    }
}

/// The UTF-16 code-unit sequence for the text bytes `s[i..]`, decoding
/// leniently.
pub open spec fn spec_utf16_units_from(s: Seq<u8>, i: nat) -> Seq<u16>
    decreases s.len() - i,
{
    if i >= s.len() {
        Seq::empty()
    } else {
        match spec_decode_utf8_at(s, i) {
            Some((chr, step)) => spec_utf16_of_char(chr) + spec_utf16_units_from(s, i + step),
            None => spec_utf16_units_from(s, i + 1),
        }
    }
}

/// Every decoded codepoint is below 0x200000, and a decoded step is
/// between one and four bytes and stays within the input.
pub proof fn lemma_decode_bounds(s: Seq<u8>, i: nat)
    ensures
        match spec_decode_utf8_at(s, i) {
            Some((chr, step)) => chr < 0x200000 && 1 <= step <= 4 && i + step <= s.len(),
            None => true,
        },
{
    if i < s.len() {
        let len = spec_utf8_char_len(s[i as int]);
        if s.len() - i >= len {
            let chr = spec_utf8_char_at(s, i, len);
            if len == 1 {
                assert(chr < 0x200000);
            } else if len == 2 {
                let b0 = s[i as int];
                let b1 = s[i as int + 1];
                assert((((b0 & 0x1f) as u32) << 6u32) | ((b1 & 0x3f) as u32) < 0x200000)
                    by (bit_vector);
            } else if len == 3 {
                let b0 = s[i as int];
                let b1 = s[i as int + 1];
                let b2 = s[i as int + 2];
                assert((((b0 & 0x0f) as u32) << 12u32) | (((b1 & 0x3f) as u32) << 6u32) | ((b2
                    & 0x3f) as u32) < 0x200000) by (bit_vector);
            } else {
                let b0 = s[i as int];
                let b1 = s[i as int + 1];
                let b2 = s[i as int + 2];
                let b3 = s[i as int + 3];
                assert((((b0 & 0x07) as u32) << 18u32) | (((b1 & 0x3f) as u32) << 12u32) | (((b2
                    & 0x3f) as u32) << 6u32) | ((b3 & 0x3f) as u32) < 0x200000) by (bit_vector);
            }
        }
    }
}

/// The number of UTF-16 code units is at most twice the number of input
/// bytes.
pub proof fn lemma_utf16_len_bound(s: Seq<u8>, i: nat)
    requires
        i <= s.len(),
    ensures
        spec_utf16_len_from(s, i) <= 2 * (s.len() - i),
    decreases s.len() - i,
{
    if i < s.len() {
        match spec_decode_utf8_at(s, i) {
            Some((chr, step)) => {
                lemma_decode_bounds(s, i);
                lemma_utf16_len_bound(s, i + step);
            },
            None => {
                lemma_utf16_len_bound(s, i + 1);
            },
        }
    }
}

/// The unit sequence is exactly as long as the unit count.
pub proof fn lemma_utf16_units_len(s: Seq<u8>, i: nat)
    ensures
        spec_utf16_units_from(s, i).len() == spec_utf16_len_from(s, i),
    decreases s.len() - i,
{
    if i < s.len() {
        match spec_decode_utf8_at(s, i) {
            Some((chr, step)) => {
                lemma_decode_bounds(s, i);
                lemma_utf16_units_len(s, i + step);
            },
            None => {
                lemma_utf16_units_len(s, i + 1);
            },
        }
    }
}

/// How many bytes the UTF-8 sequence starting with `first` claims.
fn utf8_char_len(first: u8) -> (r: usize)
    ensures
        r as nat == spec_utf8_char_len(first),
{
    if first & 0x80 == 0x00 {
        1
    } else if first & 0xe0 == 0xc0 {
        2
    } else if first & 0xf0 == 0xe0 {
        3
    } else if first & 0xf8 == 0xf0 {
        4
    } else {
        1
    }
}

/// Lenient UTF-8 decode at offset `i` of `bytes`: the codepoint and its
/// byte length, or `None` at the end of the input or on a truncated
/// sequence.
fn decode_utf8(bytes: &[u8], i: usize) -> (r: Option<(u32, usize)>)
    requires
        i <= bytes@.len(),
    ensures
        match r {
            Some(p) => spec_decode_utf8_at(bytes@, i as nat) == Some((p.0, p.1 as nat)) && p.0
                < 0x200000 && 1 <= p.1 <= 4 && i + p.1 <= bytes@.len(),
            None => spec_decode_utf8_at(bytes@, i as nat) is None,
        },
{
    if i >= bytes.len() {
        return None;
    }
    let len = utf8_char_len(bytes[i]);
    if bytes.len() - i < len {
        return None;
    }
    proof {
        lemma_decode_bounds(bytes@, i as nat);
    }
    let chr: u32 = if len == 1 {
        bytes[i] as u32
    } else if len == 2 {
        (((bytes[i] & 0x1f) as u32) << 6u32) | ((bytes[i + 1] & 0x3f) as u32)
    } else if len == 3 {
        (((bytes[i] & 0x0f) as u32) << 12u32) | (((bytes[i + 1] & 0x3f) as u32) << 6u32) | ((
        bytes[i + 2] & 0x3f) as u32)
    } else {
        (((bytes[i] & 0x07) as u32) << 18u32) | (((bytes[i + 1] & 0x3f) as u32) << 12u32) | (((
        bytes[i + 2] & 0x3f) as u32) << 6u32) | ((bytes[i + 3] & 0x3f) as u32)
    };
    Some((chr, len))
}

/// Counts the UTF-16 code units needed for a text: one per codepoint
/// below 0x10000, two above, decoding the UTF-8 bytes leniently.
pub fn utf16_len(s: &str) -> (r: usize)
    requires
        s.spec_bytes().len() <= usize::MAX / 2,
    ensures
        r as nat == spec_utf16_len_from(s.spec_bytes(), 0),
{
    let bytes = s.as_bytes();
    let ghost bs = s.spec_bytes();
    let mut len: usize = 0;
    let mut i: usize = 0;
    proof {
        lemma_utf16_len_bound(bs, 0);
    }
    while i < bytes.len()
        invariant
            i <= bs.len(),
            bytes@ == bs,
            bs.len() <= usize::MAX / 2,
            len as nat + spec_utf16_len_from(bs, i as nat) == spec_utf16_len_from(bs, 0),
            len as nat + spec_utf16_len_from(bs, i as nat) <= 2 * bs.len(),
        decreases bs.len() - i,
    {
        match decode_utf8(bytes, i) {
            Some((chr, step)) => {
                len = len + (if chr >= 0x10000 {
                    2
                } else {
                    1
                });
                i = i + step;
            },
            None => {
                i = i + 1;
            },
        }
    }
    len
}

/// Encodes a text as UTF-16 code units: codepoints at or above 0x10000
/// become a high surrogate followed by a low surrogate, the rest one
/// unit, decoding the UTF-8 bytes leniently.
pub fn encode_utf16(s: &str) -> (r: Vec<u16>)
    ensures
        r@ == spec_utf16_units_from(s.spec_bytes(), 0),
        r@.len() == spec_utf16_len_from(s.spec_bytes(), 0),
{
    let bytes = s.as_bytes();
    let ghost bs = s.spec_bytes();
    let mut result: Vec<u16> = Vec::new();
    let mut i: usize = 0;
    while i < bytes.len()
        invariant
            i <= bs.len(),
            bytes@ == bs,
            result@ + spec_utf16_units_from(bs, i as nat) == spec_utf16_units_from(bs, 0),
        decreases bs.len() - i,
    {
        match decode_utf8(bytes, i) {
            Some((chr, step)) => {
                if chr >= 0x10000 {
                    let code = chr - 0x10000;
                    proof {
                        assert(code >> 10u32 <= 0x7ff && (code & 0x3ffu32) <= 0x3ff)
                            by (bit_vector)
                            requires
                                code < 0x1f0000u32,
                        ;
                    }
                    let high = 0xd800u32 + (code >> 10u32);
                    let low = 0xdc00u32 + (code & 0x3ffu32);
                    result.push(high as u16);
                    result.push(low as u16);
                } else {
                    result.push(chr as u16);
                }
                proof {
                    assert(result@ + spec_utf16_units_from(bs, (i + step) as nat) =~= result@.subrange(
                        0,
                        result@.len() - spec_utf16_of_char(chr).len(),
                    ) + (spec_utf16_of_char(chr) + spec_utf16_units_from(bs, (i + step) as nat)));
                }
                i = i + step;
            },
            None => {
                i = i + 1;
            },
        }
    }
    proof {
        lemma_utf16_units_len(bs, 0);
    }
    result
}

/// One xor-shift step of the 32-bit wide-keystream state.
pub open spec fn spec_xorshift_step(s: u32) -> u32 {
    let a = s ^ (s << 13u32);
    let b = a ^ (a >> 17u32);
    b ^ (b << 5u32)
}

/// The wide-keystream state after `n` steps from `seed`.
pub open spec fn spec_xorshift_iter(seed: u32, n: nat) -> u32
    decreases n,
{
    if n == 0 {
        seed
    } else {
        spec_xorshift_step(spec_xorshift_iter(seed, (n - 1) as nat))
    }
}

/// Unit `i` of the wide keystream: the low 16 bits of the state after
/// `i + 1` steps.
pub open spec fn spec_wide_key(seed: u32, i: nat) -> u16 {
    spec_xorshift_iter(seed, i + 1) as u16
}

/// The wide keystream of length `n` generated from `seed`.
pub open spec fn spec_wide_keys(seed: u32, n: nat) -> Seq<u16> {
    Seq::new(n, |i: int| spec_wide_key(seed, i as nat))
}

/// Generates `n` pseudo-random 16-bit keystream units from `seed`, one
/// xor-shift step per unit.
pub fn gen_wide_keys(seed: u32, n: usize) -> (r: Vec<u16>)
    ensures
        r@ == spec_wide_keys(seed, n as nat),
{
    let mut keys: Vec<u16> = Vec::new();
    let mut state = seed;
    let mut i: usize = 0;
    while i < n
        invariant
            i <= n,
            keys@.len() == i,
            state == spec_xorshift_iter(seed, i as nat),
            forall|k: int| 0 <= k < i ==> keys@[k] == spec_wide_key(seed, k as nat),
        decreases n - i,
    {
        state = state ^ (state << 13u32);
        state = state ^ (state >> 17u32);
        state = state ^ (state << 5u32);
        keys.push(state as u16);
        i = i + 1;
    }
    proof {
        assert(keys@ =~= spec_wide_keys(seed, n as nat));
    }
    keys
}

/// Pointwise xor of two equal-length 16-bit-unit sequences.
pub open spec fn spec_xor_wide(data: Seq<u16>, keys: Seq<u16>) -> Seq<u16>
    recommends
        data.len() == keys.len(),
{
    Seq::new(data.len(), |i: int| data[i] ^ keys[i])
}

/// Xor-based wide encryption is an involution: encrypting (or
/// decrypting) twice with the same keystream returns the original units.
pub proof fn lemma_xor_wide_involution(data: Seq<u16>, keys: Seq<u16>)
    requires
        data.len() == keys.len(),
    ensures
        spec_xor_wide(spec_xor_wide(data, keys), keys) == data,
{
    let twice = spec_xor_wide(spec_xor_wide(data, keys), keys);
    assert forall|i: int| 0 <= i < data.len() implies twice[i] == data[i] by {
        let d = data[i];
        let k = keys[i];
        assert((d ^ k) ^ k == d) by (bit_vector);
    };
    assert(twice =~= data);
}

/// Element-wise xor of wide units against an equal-length wide keystream.
pub fn encrypt_wide(data: &[u16], keys: &[u16]) -> (r: Vec<u16>)
    requires
        data@.len() == keys@.len(),
    ensures
        r@ == spec_xor_wide(data@, keys@),
{
    let mut result: Vec<u16> = Vec::new();
    let mut i: usize = 0;
    while i < data.len()
        invariant
            i <= data@.len(),
            data@.len() == keys@.len(),
            result@.len() == i,
            forall|k: int| 0 <= k < i ==> result@[k] == (data@[k] ^ keys@[k]),
        decreases data@.len() - i,
    {
        result.push(data[i] ^ keys[i]);
        i = i + 1;
    }
    proof {
        assert(result@ =~= spec_xor_wide(data@, keys@));
    }
    result
}

/// Element-wise xor of encrypted wide units against an equal-length wide
/// keystream; the exact inverse of `encrypt_wide`.
pub fn decrypt_wide(data: &[u16], keys: &[u16]) -> (r: Vec<u16>)
    requires
        data@.len() == keys@.len(),
    ensures
        r@ == spec_xor_wide(data@, keys@),
{
    let mut result: Vec<u16> = Vec::new();
    let mut i: usize = 0;
    while i < data.len()
        invariant
            i <= data@.len(),
            data@.len() == keys@.len(),
            result@.len() == i,
            forall|k: int| 0 <= k < i ==> result@[k] == (data@[k] ^ keys@[k]),
        decreases data@.len() - i,
    {
        result.push(data[i] ^ keys[i]);
        i = i + 1;
    }
    proof {
        assert(result@ =~= spec_xor_wide(data@, keys@));
    }
    result
}

} // verus!
