use native_obf::flow::gen_flow_keys;
use native_obf::hash::{sdbm_hash, xxhash32};
use native_obf::pointer::ptr_mangle;
use native_obf::rng::{gen_entropy, gen_entropy_with, global_seed, siphash_seed, xxhash_mix};
use native_obf::string::{decrypt_bytes, encrypt_bytes, gen_keystream};
use native_obf::wide::{encode_utf16, utf16_len};
use native_obf::{fake_compute, noise_loop, opaque_identity, opaque_true, stack_trash, tamper_check};

#[test]
fn xxhash32_known_values() {
    assert_eq!(xxhash32(&[], 0), 0x2cc5d05);
    assert_eq!(xxhash32(b"abcdef", 42), 0x3572b2);
}

#[test]
fn xxhash32_deterministic() {
    let data = b"determinism check";
    assert_eq!(xxhash32(data, 7), xxhash32(data, 7));
    assert_ne!(xxhash32(data, 7), xxhash32(data, 8));
}

#[test]
fn sdbm_hash_known_values() {
    assert_eq!(sdbm_hash(""), 0);
    assert_eq!(sdbm_hash("hello"), 0x28d19932);
    assert_eq!(sdbm_hash("hello"), sdbm_hash("hello"));
}

#[test]
fn xxhash_mix_known_value() {
    assert_eq!(xxhash_mix(1), 0x283a72a5b9ab93d3);
}

#[test]
fn global_seed_stable_and_known() {
    assert_eq!(global_seed(), 0xca5685517901bf74);
    assert_eq!(global_seed(), global_seed());
}

#[test]
fn siphash_seed_known_values() {
    assert_eq!(siphash_seed(""), 0x736f6d6570736575);
    assert_eq!(siphash_seed("token_a"), 0xa2900882bede159d);
}

#[test]
fn seeds_differ_between_override_strings() {
    assert_ne!(siphash_seed("token_a"), siphash_seed("token_b"));
    assert_ne!(
        gen_entropy_with(siphash_seed("token_a"), "site"),
        gen_entropy_with(siphash_seed("token_b"), "site"),
    );
}

#[test]
fn gen_entropy_known_value_and_determinism() {
    assert_eq!(gen_entropy("main.rs:10:5"), 0xfb08e1cea542d006);
    assert_eq!(gen_entropy("main.rs:10:5"), gen_entropy("main.rs:10:5"));
    assert_ne!(gen_entropy("main.rs:10:5"), gen_entropy("main.rs:10:6"));
}

#[test]
fn keystream_known_bytes() {
    assert_eq!(
        gen_keystream(0x12345678, 10),
        vec![225u8, 18, 83, 153, 53, 89, 198, 172, 200, 155],
    );
}

#[test]
fn utf16_length_cases() {
    assert_eq!(utf16_len("A"), 1);
    assert_eq!(utf16_len("\u{20ac}"), 1);
    assert_eq!(utf16_len("\u{1f680}"), 2);
    assert_eq!(utf16_len(""), 0);
}

#[test]
fn utf16_surrogate_pair() {
    let units = encode_utf16("\u{1f680}");
    assert_eq!(units.len(), 2);
    assert_eq!(units[0], 0xd83d);
    assert_eq!(units[1], 0xde80);
    assert!((0xd800..=0xdbff).contains(&units[0]));
    assert!((0xdc00..=0xdfff).contains(&units[1]));
}

#[test]
fn utf16_mixed_text() {
    let units = encode_utf16("A\u{20ac}\u{1f680}");
    assert_eq!(units, vec![0x0041u16, 0x20ac, 0xd83d, 0xde80]);
    assert_eq!(utf16_len("A\u{20ac}\u{1f680}"), 4);
}

#[test]
fn end_to_end_literal_encryption() {
    let literal = b"super secret password".to_vec();
    let token = "src/app.rs:42:13";
    let key = gen_entropy(token) as u32;
    let keys = gen_keystream(key, literal.len());
    let cipher = encrypt_bytes(&literal, &keys);

    let same_key = gen_entropy(token) as u32;
    let same_keys = gen_keystream(same_key, literal.len());
    assert_eq!(decrypt_bytes(&cipher, &same_keys), literal);

    let other_key = gen_entropy("src/app.rs:99:1") as u32;
    let other_keys = gen_keystream(other_key, literal.len());
    assert_ne!(decrypt_bytes(&cipher, &other_keys), literal);
}

#[test]
fn flow_keys_known_values() {
    let stmts: Vec<&str> = vec!["ab", "c"];
    let keys = gen_flow_keys(7, &stmts);
    assert_eq!(keys, vec![0x8e6360d6u32, 0xed1e80c3]);
}

#[test]
fn flow_keys_deterministic_and_sized() {
    let stmts: Vec<&str> = vec!["let x = 1;", "call();", "return x;"];
    let once = gen_flow_keys(99, &stmts);
    let twice = gen_flow_keys(99, &stmts);
    assert_eq!(once, twice);
    assert_eq!(once.len(), 3);
}

#[test]
fn ptr_mangle_masked_and_known() {
    let mangled = ptr_mangle(0x1111, 5);
    assert_eq!(mangled, 0x4ba);
    for offset in [0u32, 1, 0xffff, u32::MAX] {
        assert!(ptr_mangle(0xdeadbeef, offset) <= 0xffff);
    }
}

#[test]
fn mangled_displacement_restores_address() {
    let address = 0x7fff_1234_5678u64;
    let displacement = ptr_mangle(0x42, 16) as u64;
    let base = address.wrapping_sub(displacement);
    assert_eq!(base.wrapping_add(displacement), address);
}

#[test]
fn noise_and_decoy_known_values() {
    assert_eq!(noise_loop(100), 0x27af4ff30cb0d482);
    assert_eq!(noise_loop(0), 0);
    assert_eq!(fake_compute(42), 0x29d3fb90ea5040d5);
}

#[test]
fn opaque_predicates() {
    assert!(opaque_true());
    assert_eq!(opaque_identity(1234u32), 1234u32);
    assert_eq!(opaque_identity(String::from("x")), String::from("x"));
    stack_trash();
}

#[test]
fn tamper_check_matches_tag_hash() {
    assert!(tamper_check(0xe4c901f4));
    assert!(!tamper_check(0));
}
