//! Data- and control-flow obfuscation primitives: deterministic hashing,
//! seed derivation, reversible integer encoding, xor stream ciphers, a
//! UTF-16 codec, a multi-round cascade cipher, offset mangling, and a
//! masked value container. Every transform is a total function of its
//! inputs, and each reversible pair is proved to round-trip.

pub mod encoding;
pub mod flow;
pub mod hash;
pub mod pointer;
pub mod rng;
pub mod string;
pub mod wide;

pub use hash::sdbm_hash;
pub use hash::xxhash32;
pub use rng::gen_entropy;
pub use rng::siphash_seed;
pub use rng::xxhash_mix;

use vstd::prelude::*;

verus! {

/// Left-rotation of a 32-bit word by `n` bits, `0 < n < 32`.
pub open spec fn spec_rotl32(x: u32, n: u32) -> u32
    recommends 0 < n < 32,
{
    (x << n) | (x >> ((32 - n) as u32))
}

/// Right-rotation of a 32-bit word by `n` bits, `0 < n < 32`.
pub open spec fn spec_rotr32(x: u32, n: u32) -> u32
    recommends 0 < n < 32,
{
    (x >> n) | (x << ((32 - n) as u32))
}

/// Left-rotation of a 64-bit word by `n` bits, `0 < n < 64`.
pub open spec fn spec_rotl64(x: u64, n: u64) -> u64
    recommends 0 < n < 64,
{
    (x << n) | (x >> ((64 - n) as u64))
}

/// Right-rotation of a 64-bit word by `n` bits, `0 < n < 64`.
pub open spec fn spec_rotr64(x: u64, n: u64) -> u64
    recommends 0 < n < 64,
{
    (x >> n) | (x << ((64 - n) as u64))
}

/// A cheap deterministic bit-mixing decoy: its result carries no meaning
/// to callers, it only exists to waste a reverse engineer's attention.
pub open spec fn spec_fake_compute(input: u64) -> u64 {
    let a = input ^ 0xa5a5a5a5a5a5a5a5u64;
    let b = a.wrapping_mul(0x517cc1b727220a95u64);
    let c = spec_rotl64(b, 23);
    c ^ (c >> 17u64)
}

pub fn fake_compute(input: u64) -> (r: u64)
    ensures
        r == spec_fake_compute(input),
{
    let a = input ^ 0xa5a5a5a5a5a5a5a5u64;
    let b = a.wrapping_mul(0x517cc1b727220a95u64);
    let c = (b << 23u64) | (b >> 41u64);
    c ^ (c >> 17u64)
}

/// Relies on std::time::SystemTime::now and Duration::as_nanos to read
/// the clock; nothing is assumed of the value. A clock before the epoch
/// yields zero instead of a panic.
#[verifier::external_body]
fn current_time_nanos() -> u64 {
    match std::time::SystemTime::now().duration_since(std::time::UNIX_EPOCH) {
        Ok(d) => d.as_nanos() as u64,
        Err(_) => 0,
    }
}

/// Always returns true, but computes the answer from the current time so
/// the optimizer cannot constant-fold the predicate away.
pub fn opaque_true() -> (r: bool)
    ensures
        r == true,
{
    let t = current_time_nanos();
    proof {
        assert((t | 1) != 0) by (bit_vector);
    }
    (t | 1) != 0
}

/// Returns its argument unchanged, gated behind an opaque predicate so
/// the data flow is not a visible straight line.
pub fn opaque_identity<T>(val: T) -> (r: T)
    ensures
        r == val,
{
    if opaque_true() {
        val
    } else {
        vstd::pervasive::unreached()
    }
}

/// Relies on std::hint::black_box: it returns its reference argument
/// unchanged and has no effect, while forcing the optimizer to treat the
/// buffer as observed.
#[verifier::external_body]
fn observed_buffer(buf: &Vec<u8>) {
    std::hint::black_box(buf);
}

/// Fills a fixed-size local buffer with a deterministic pattern and
/// forces the compiler to treat it as observed, perturbing stack and
/// register layout around sensitive code.
pub fn stack_trash() {
    let mut buf: Vec<u8> = Vec::new();
    let mut i: usize = 0;
    while i < 512
        invariant
            i <= 512,
        decreases 512 - i,
    {
        buf.push((((i * 73) ^ 0xaa) % 256) as u8);
        i = i + 1;
    }
    observed_buffer(&buf);
}

/// One step of the noise accumulator: add the index, xor a constant,
/// rotate left by seven.
pub open spec fn spec_noise_step(acc: u64, i: u64) -> u64 {
    spec_rotl64(acc.wrapping_add(i) ^ 0xdeadbeefu64, 7)
}

/// The noise accumulator after running indices `i..count` from `acc`.
pub open spec fn spec_noise_from(acc: u64, i: u64, count: u64) -> u64
    decreases count - i,
{
    if i >= count {
        acc
    } else {
        spec_noise_from(spec_noise_step(acc, i), (i + 1) as u64, count)
    }
}

/// What `noise_loop` computes over `count` iterations.
pub open spec fn spec_noise_loop(count: u64) -> u64 {
    spec_noise_from(0, 0, count)
}

/// A deterministic busy loop whose accumulator has no meaning: decoy
/// work, also used to derive the masking key of `ObfuscatedValue`.
pub fn noise_loop(count: usize) -> (r: u64)
    ensures
        r == spec_noise_loop(count as u64),
{
    let mut acc: u64 = 0;
    let mut i: usize = 0;
    while i < count
        invariant
            i <= count,
            spec_noise_from(acc, i as u64, count as u64) == spec_noise_loop(count as u64),
        decreases count - i,
    {
        acc = acc.wrapping_add(i as u64);
        acc = acc ^ 0xdeadbeefu64;
        acc = (acc << 7u64) | (acc >> 57u64);
        i = i + 1;
    }
    acc
}

/// Xors a buffer in place against a repeating key: byte `i` is xored
/// with `key[i % key.len()]`.
pub fn xor_stream(data: &mut Vec<u8>, key: &[u8])
    requires
        key@.len() > 0,
    ensures
        final(data)@.len() == old(data)@.len(),
        forall|i: int|
            0 <= i < final(data)@.len() ==> final(data)@[i] == (old(data)@[i] ^ key@[i % key@.len() as int]),
{
    let mut i: usize = 0;
    while i < data.len()
        invariant
            i <= data@.len(),
            data@.len() == old(data)@.len(),
            key@.len() > 0,
            forall|j: int|
                0 <= j < i ==> data@[j] == (old(data)@[j] ^ key@[j % key@.len() as int]),
            forall|j: int| i <= j < data@.len() ==> data@[j] == old(data)@[j],
        decreases data@.len() - i,
    {
        let v = data[i] ^ key[i % key.len()];
        data[i] = v;
        i = i + 1;
    }
}

/// The base key of a cascade round: 0xb7 plus the round index, modulo
/// 256.
pub open spec fn spec_cascade_key0(round: nat) -> u8 {
    (0xb7u8).wrapping_add((round % 256) as u8)
}

/// The per-byte key schedule advance within one cascade round.
pub open spec fn spec_cascade_next_key(k: u8) -> u8 {
    k.wrapping_mul(17).wrapping_add(83)
}

/// The round key used at byte `i`, starting the round from `k0`.
pub open spec fn spec_cascade_key_at(k0: u8, i: nat) -> u8
    decreases i,
{
    if i == 0 {
        k0
    } else {
        spec_cascade_next_key(spec_cascade_key_at(k0, (i - 1) as nat))
    }
}

/// One byte encrypted under one round key: add the key, then xor it.
pub open spec fn spec_cascade_enc_byte(b: u8, k: u8) -> u8 {
    b.wrapping_add(k) ^ k
}

/// One byte decrypted under one round key: xor the key, then subtract it.
pub open spec fn spec_cascade_dec_byte(b: u8, k: u8) -> u8 {
    (b ^ k).wrapping_sub(k)
}

/// One full encryption round over a buffer, keys advancing per byte.
pub open spec fn spec_cascade_round_enc(s: Seq<u8>, k0: u8) -> Seq<u8> {
    Seq::new(s.len(), |i: int| spec_cascade_enc_byte(s[i], spec_cascade_key_at(k0, i as nat)))
}

/// One full decryption round over a buffer, keys advancing per byte.
pub open spec fn spec_cascade_round_dec(s: Seq<u8>, k0: u8) -> Seq<u8> {
    Seq::new(s.len(), |i: int| spec_cascade_dec_byte(s[i], spec_cascade_key_at(k0, i as nat)))
}

/// The cascade ciphertext after rounds `0..rounds`, applied forward.
pub open spec fn spec_cascade_encrypt(s: Seq<u8>, rounds: nat) -> Seq<u8>
    decreases rounds,
{
    if rounds == 0 {
        s
    } else {
        spec_cascade_round_enc(
            spec_cascade_encrypt(s, (rounds - 1) as nat),
            spec_cascade_key0((rounds - 1) as nat),
        )
    }
}

/// The cascade plaintext after undoing rounds `rounds-1..0` in reverse.
pub open spec fn spec_cascade_decrypt(s: Seq<u8>, rounds: nat) -> Seq<u8>
    decreases rounds,
{
    if rounds == 0 {
        s
    } else {
        spec_cascade_decrypt(
            spec_cascade_round_dec(s, spec_cascade_key0((rounds - 1) as nat)),
            (rounds - 1) as nat,
        )
    }
}

/// Decrypting one byte undoes encrypting it under the same round key.
proof fn lemma_cascade_byte_roundtrip(b: u8, k: u8)
    ensures
        spec_cascade_dec_byte(spec_cascade_enc_byte(b, k), k) == b,
{
    assert(spec_cascade_dec_byte(spec_cascade_enc_byte(b, k), k) == b) by (bit_vector);
}

/// Decrypting one round undoes encrypting one round with the same base
/// key.
proof fn lemma_cascade_round_roundtrip(s: Seq<u8>, k0: u8)
    ensures
        spec_cascade_round_dec(spec_cascade_round_enc(s, k0), k0) == s,
{
    let enc = spec_cascade_round_enc(s, k0);
    let dec = spec_cascade_round_dec(enc, k0);
    assert forall|i: int| 0 <= i < s.len() implies dec[i] == s[i] by {
        lemma_cascade_byte_roundtrip(s[i], spec_cascade_key_at(k0, i as nat));
    };
    assert(dec =~= s);
}

/// The cascade cipher round-trips: decrypting with the same number of
/// rounds returns the original data, for every round count including
/// zero, where both transforms are the identity.
pub proof fn lemma_cascade_roundtrip(data: Seq<u8>, rounds: nat)
    ensures
        spec_cascade_decrypt(spec_cascade_encrypt(data, rounds), rounds) == data,
        spec_cascade_encrypt(data, 0) == data,
        spec_cascade_decrypt(data, 0) == data,
    decreases rounds,
{
    if rounds > 0 {
        let prev = spec_cascade_encrypt(data, (rounds - 1) as nat);
        let k0 = spec_cascade_key0((rounds - 1) as nat);
        lemma_cascade_round_roundtrip(prev, k0);
        lemma_cascade_roundtrip(data, (rounds - 1) as nat);
    }
}

/// Multi-round additive/xor cipher: round `r` starts its key schedule at
/// `0xb7 + r` and advances it per byte; rounds apply forward.
pub fn cascade_encrypt(data: &[u8], rounds: usize) -> (r: Vec<u8>)
    ensures
        r@ == spec_cascade_encrypt(data@, rounds as nat),
{
    let mut result = vstd::slice::slice_to_vec(data);
    let mut round: usize = 0;
    while round < rounds
        invariant
            round <= rounds,
            result@.len() == data@.len(),
            result@ == spec_cascade_encrypt(data@, round as nat),
        decreases rounds - round,
    {
        let ghost start = result@;
        let ghost k0 = spec_cascade_key0(round as nat);
        let mut key: u8 = (0xb7u8).wrapping_add((round % 256) as u8);
        let mut i: usize = 0;
        while i < result.len()
            invariant
                i <= start.len(),
                result@.len() == start.len(),
                key == spec_cascade_key_at(k0, i as nat),
                forall|j: int|
                    0 <= j < i ==> result@[j] == spec_cascade_enc_byte(
                        start[j],
                        spec_cascade_key_at(k0, j as nat),
                    ),
                forall|j: int| i <= j < start.len() ==> result@[j] == start[j],
            decreases start.len() - i,
        {
            let b = result[i];
            result[i] = b.wrapping_add(key) ^ key;
            key = key.wrapping_mul(17).wrapping_add(83);
            i = i + 1;
        }
        proof {
            assert(result@ =~= spec_cascade_round_enc(start, k0));
        }
        round = round + 1;
    }
    result
}

/// Inverse of `cascade_encrypt`: rounds apply in reverse, each byte
/// undone by xoring and then subtracting the same per-byte key schedule.
pub fn cascade_decrypt(data: &[u8], rounds: usize) -> (r: Vec<u8>)
    ensures
        r@ == spec_cascade_decrypt(data@, rounds as nat),
{
    let mut result = vstd::slice::slice_to_vec(data);
    let mut round: usize = rounds;
    while round > 0
        invariant
            round <= rounds,
            result@.len() == data@.len(),
            spec_cascade_decrypt(result@, round as nat) == spec_cascade_decrypt(
                data@,
                rounds as nat,
            ),
        decreases round,
    {
        round = round - 1;
        let ghost start = result@;
        let ghost k0 = spec_cascade_key0(round as nat);
        let mut key: u8 = (0xb7u8).wrapping_add((round % 256) as u8);
        let mut i: usize = 0;
        while i < result.len()
            invariant
                i <= start.len(),
                result@.len() == start.len(),
                key == spec_cascade_key_at(k0, i as nat),
                forall|j: int|
                    0 <= j < i ==> result@[j] == spec_cascade_dec_byte(
                        start[j],
                        spec_cascade_key_at(k0, j as nat),
                    ),
                forall|j: int| i <= j < start.len() ==> result@[j] == start[j],
            decreases start.len() - i,
        {
            let b = result[i];
            result[i] = (b ^ key).wrapping_sub(key);
            key = key.wrapping_mul(17).wrapping_add(83);
            i = i + 1;
        }
        proof {
            assert(result@ =~= spec_cascade_round_dec(start, k0));
        }
    }
    result
}

/// A value whose raw representation is a fixed number of bytes, so it can
/// be stored masked and reconstructed exactly. The byte view must
/// determine the value: two values with the same bytes are the same
/// value.
pub trait Maskable: Sized {
    /// The fixed byte width of the raw representation.
    spec fn byte_width() -> nat;

    /// The little-endian raw bytes of a value.
    spec fn value_bytes(&self) -> Seq<u8>;

    /// The byte view always has exactly the declared width.
    proof fn lemma_bytes_width(&self)
        ensures
            self.value_bytes().len() == Self::byte_width(),
    ;

    /// The byte view is injective: equal bytes mean equal values.
    proof fn lemma_bytes_injective(a: &Self, b: &Self)
        ensures
            a.value_bytes() == b.value_bytes() ==> a == b,
    ;

    /// Serializes a value into its raw bytes, consuming it.
    fn to_bytes(self) -> (r: Vec<u8>)
        ensures
            r@ == self.value_bytes(),
    ;

    /// Reconstructs the value whose raw bytes are `b`.
    fn from_bytes(b: &[u8]) -> (r: Self)
        requires
            b@.len() == Self::byte_width(),
        ensures
            r.value_bytes() == b@,
    ;
}

impl Maskable for u32 {
    open spec fn byte_width() -> nat {
        4
    }

    open spec fn value_bytes(&self) -> Seq<u8> {
        Seq::new(4, |i: int| ((*self >> ((8 * i) as u32)) as u8))
    }

    proof fn lemma_bytes_width(&self) {
    }

    proof fn lemma_bytes_injective(a: &Self, b: &Self) {
        let x = *a;
        let y = *b;
        if a.value_bytes() == b.value_bytes() {
            let ab = a.value_bytes();
            let bb = b.value_bytes();
            assert(ab[0] == bb[0] && ab[1] == bb[1] && ab[2] == bb[2] && ab[3] == bb[3]);
            assert((x >> 0u32) as u8 == (y >> 0u32) as u8 && (x >> 8u32) as u8 == (y >> 8u32) as u8
                && (x >> 16u32) as u8 == (y >> 16u32) as u8 && (x >> 24u32) as u8 == (y
                >> 24u32) as u8);
            assert((x >> 0u32) as u8 == (y >> 0u32) as u8 && (x >> 8u32) as u8 == (y >> 8u32) as u8
                && (x >> 16u32) as u8 == (y >> 16u32) as u8 && (x >> 24u32) as u8 == (y
                >> 24u32) as u8 ==> x == y) by (bit_vector);
        }
    }

    fn to_bytes(self) -> (r: Vec<u8>) {
        let mut out: Vec<u8> = Vec::new();
        out.push((self >> 0u32) as u8);
        out.push((self >> 8u32) as u8);
        out.push((self >> 16u32) as u8);
        out.push((self >> 24u32) as u8);
        proof {
            assert(out@ =~= self.value_bytes());
        }
        out
    }

    fn from_bytes(b: &[u8]) -> (r: Self) {
        let v: u32 = (b[0] as u32) | ((b[1] as u32) << 8u32) | ((b[2] as u32) << 16u32) | ((
        b[3] as u32) << 24u32);
        proof {
            let b0 = b@[0];
            let b1 = b@[1];
            let b2 = b@[2];
            let b3 = b@[3];
            assert((v >> 0u32) as u8 == b0 && (v >> 8u32) as u8 == b1 && (v >> 16u32) as u8 == b2
                && (v >> 24u32) as u8 == b3) by (bit_vector)
                requires
                    v == (b0 as u32) | ((b1 as u32) << 8u32) | ((b2 as u32) << 16u32) | ((
                    b3 as u32) << 24u32),
            ;
            assert(v.value_bytes() =~= b@);
        }
        v
    }
}

impl Maskable for u64 {
    open spec fn byte_width() -> nat {
        8
    }

    open spec fn value_bytes(&self) -> Seq<u8> {
        Seq::new(8, |i: int| ((*self >> ((8 * i) as u64)) as u8))
    }

    proof fn lemma_bytes_width(&self) {
    }

    proof fn lemma_bytes_injective(a: &Self, b: &Self) {
        let x = *a;
        let y = *b;
        if a.value_bytes() == b.value_bytes() {
            let ab = a.value_bytes();
            let bb = b.value_bytes();
            assert(ab[0] == bb[0] && ab[1] == bb[1] && ab[2] == bb[2] && ab[3] == bb[3] && ab[4]
                == bb[4] && ab[5] == bb[5] && ab[6] == bb[6] && ab[7] == bb[7]);
            assert((x >> 0u64) as u8 == (y >> 0u64) as u8 && (x >> 8u64) as u8 == (y >> 8u64) as u8
                && (x >> 16u64) as u8 == (y >> 16u64) as u8 && (x >> 24u64) as u8 == (y
                >> 24u64) as u8 && (x >> 32u64) as u8 == (y >> 32u64) as u8 && (x >> 40u64) as u8
                == (y >> 40u64) as u8 && (x >> 48u64) as u8 == (y >> 48u64) as u8 && (x
                >> 56u64) as u8 == (y >> 56u64) as u8);
            assert((x >> 0u64) as u8 == (y >> 0u64) as u8 && (x >> 8u64) as u8 == (y >> 8u64) as u8
                && (x >> 16u64) as u8 == (y >> 16u64) as u8 && (x >> 24u64) as u8 == (y
                >> 24u64) as u8 && (x >> 32u64) as u8 == (y >> 32u64) as u8 && (x >> 40u64) as u8
                == (y >> 40u64) as u8 && (x >> 48u64) as u8 == (y >> 48u64) as u8 && (x
                >> 56u64) as u8 == (y >> 56u64) as u8 ==> x == y) by (bit_vector);
        }
    }

    fn to_bytes(self) -> (r: Vec<u8>) {
        let mut out: Vec<u8> = Vec::new();
        out.push((self >> 0u64) as u8);
        out.push((self >> 8u64) as u8);
        out.push((self >> 16u64) as u8);
        out.push((self >> 24u64) as u8);
        out.push((self >> 32u64) as u8);
        out.push((self >> 40u64) as u8);
        out.push((self >> 48u64) as u8);
        out.push((self >> 56u64) as u8);
        proof {
            assert(out@ =~= self.value_bytes());
        }
        out
    }

    fn from_bytes(b: &[u8]) -> (r: Self) {
        let v: u64 = (b[0] as u64) | ((b[1] as u64) << 8u64) | ((b[2] as u64) << 16u64) | ((
        b[3] as u64) << 24u64) | ((b[4] as u64) << 32u64) | ((b[5] as u64) << 40u64) | ((
        b[6] as u64) << 48u64) | ((b[7] as u64) << 56u64);
        proof {
            let b0 = b@[0];
            let b1 = b@[1];
            let b2 = b@[2];
            let b3 = b@[3];
            let b4 = b@[4];
            let b5 = b@[5];
            let b6 = b@[6];
            let b7 = b@[7];
            let w = (b0 as u64) | ((b1 as u64) << 8u64) | ((b2 as u64) << 16u64) | ((b3 as u64)
                << 24u64) | ((b4 as u64) << 32u64) | ((b5 as u64) << 40u64) | ((b6 as u64)
                << 48u64) | ((b7 as u64) << 56u64);
            assert((w >> 0u64) as u8 == b0 && (w >> 8u64) as u8 == b1 && (w >> 16u64) as u8 == b2
                && (w >> 24u64) as u8 == b3 && (w >> 32u64) as u8 == b4 && (w >> 40u64) as u8 == b5
                && (w >> 48u64) as u8 == b6 && (w >> 56u64) as u8 == b7) by (bit_vector)
                requires
                    w == (b0 as u64) | ((b1 as u64) << 8u64) | ((b2 as u64) << 16u64) | ((
                    b3 as u64) << 24u64) | ((b4 as u64) << 32u64) | ((b5 as u64) << 40u64) | ((
                    b6 as u64) << 48u64) | ((b7 as u64) << 56u64),
            ;
            assert(v.value_bytes() =~= b@);
        }
        v
    }
}

/// Byte `i` of the rotating mask drawn from a 64-bit instance key.
pub open spec fn spec_mask_byte(key: u64, i: int) -> u8 {
    (key >> (((i % 8) * 8) as u64)) as u8
}

/// A container holding a value's raw bytes xor-masked under an
/// instance-local key. The plaintext value is taken by ownership at
/// creation and never stored; reads reconstruct a transient copy.
pub struct ObfuscatedValue<T: Maskable> {
    data: Vec<u8>,
    key: u64,
    val: Ghost<T>,
}

impl<T: Maskable> ObfuscatedValue<T> {
    /// The stored buffer is the masked byte view of the owned value.
    pub closed spec fn wf(self) -> bool {
        &&& self.data@.len() == T::byte_width()
        &&& self.val@.value_bytes().len() == T::byte_width()
        &&& forall|i: int|
            0 <= i < self.data@.len() ==> self.data@[i] == (self.val@.value_bytes()[i]
                ^ spec_mask_byte(self.key, i))
    }

    /// The value this container owns.
    pub closed spec fn value(self) -> T {
        self.val@
    }

    /// Takes ownership of `val`, masks its bytes under a fresh instance
    /// key, and stores only the masked copy.
    pub fn new(val: T) -> (r: Self)
        ensures
            r.wf(),
            r.value() == val,
    {
        let ghost gval = val;
        proof {
            gval.lemma_bytes_width();
        }
        let key = noise_loop(100);
        let bytes = val.to_bytes();
        let mut data: Vec<u8> = Vec::new();
        let mut i: usize = 0;
        while i < bytes.len()
            invariant
                i <= bytes@.len(),
                data@.len() == i,
                bytes@ == gval.value_bytes(),
                forall|j: int|
                    0 <= j < i ==> data@[j] == (bytes@[j] ^ spec_mask_byte(key, j)),
            decreases bytes@.len() - i,
        {
            let lane = (((i % 8) * 8)) as u64;
            data.push(bytes[i] ^ ((key >> lane) as u8));
            i = i + 1;
        }
        Self { data, key, val: Ghost(gval) }
    }

    /// Reconstructs a transient unmasked copy of the owned value; the
    /// stored state is not changed.
    pub fn get(&self) -> (r: T)
        requires
            self.wf(),
        ensures
            r == self.value(),
    {
        let mut bytes: Vec<u8> = Vec::new();
        let mut i: usize = 0;
        while i < self.data.len()
            invariant
                self.wf(),
                i <= self.data@.len(),
                bytes@.len() == i,
                forall|j: int| 0 <= j < i ==> bytes@[j] == self.val@.value_bytes()[j],
            decreases self.data@.len() - i,
        {
            let lane = (((i % 8) * 8)) as u64;
            let unmasked = self.data[i] ^ ((self.key >> lane) as u8);
            proof {
                let m = spec_mask_byte(self.key, i as int);
                let p = self.val@.value_bytes()[i as int];
                assert((p ^ m) ^ m == p) by (bit_vector);
            }
            bytes.push(unmasked);
            i = i + 1;
        }
        proof {
            assert(bytes@ =~= self.val@.value_bytes());
        }
        let r = T::from_bytes(bytes.as_slice());
        proof {
            T::lemma_bytes_injective(&r, &self.val@);
        }
        r
    }

    /// The masked buffer as stored: exposed so callers can check that no
    /// plaintext is retained.
    pub fn masked_bytes(&self) -> (r: Vec<u8>)
        ensures
            r@ == self.masked_view(),
    {
        let mut out: Vec<u8> = Vec::new();
        let mut i: usize = 0;
        while i < self.data.len()
            invariant
                i <= self.data@.len(),
                out@ == self.data@.subrange(0, i as int),
            decreases self.data@.len() - i,
        {
            out.push(self.data[i]);
            i = i + 1;
        }
        proof {
            assert(out@ =~= self.data@);
        }
        out
    }

    /// The stored masked buffer.
    pub closed spec fn masked_view(self) -> Seq<u8> {
        self.data@
    }
}

/// The fingerprint tag whose hash `tamper_check` compares against.
pub open spec fn spec_tamper_tag() -> Seq<u8> {
    seq![0x74u8, 0x61u8, 0x6du8, 0x70u8, 0x65u8, 0x72u8, 0x5fu8, 0x63u8, 0x68u8, 0x65u8, 0x63u8, 0x6bu8]
}

/// Compares the block hash of a fixed tag against an expected
/// fingerprint; true exactly when they match.
pub fn tamper_check(expected: u32) -> (r: bool)
    ensures
        r == (hash::spec_xxhash32(spec_tamper_tag(), 0) == expected),
{
    let tag: Vec<u8> = vec![0x74u8, 0x61u8, 0x6du8, 0x70u8, 0x65u8, 0x72u8, 0x5fu8, 0x63u8, 0x68u8, 0x65u8, 0x63u8, 0x6bu8];
    proof {
        assert(tag@ =~= spec_tamper_tag());
    }
    let actual = hash::xxhash32(tag.as_slice(), 0);
    actual == expected
}

} // verus!
