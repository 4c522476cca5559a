use native_obf::encoding::{
    mba_decode_u32, mba_decode_u64, mba_encode_u32, mba_encode_u64, runtime_decode, runtime_encode,
};
use native_obf::string::{decrypt_bytes, encrypt_bytes, gen_keystream};
use native_obf::wide::{decrypt_wide, encrypt_wide, gen_wide_keys};
use native_obf::{cascade_decrypt, cascade_encrypt, xor_stream, ObfuscatedValue};

#[test]
fn mba_u32_roundtrip_samples() {
    let cases: Vec<(u32, u32)> = vec![
        (0, 0),
        (1, 0xffffffff),
        (0xdeadbeef, 0x12345678),
        (0xffffffff, 0xffffffff),
        (123456, 777),
    ];
    for (value, key) in cases {
        assert_eq!(mba_decode_u32(mba_encode_u32(value, key), key), value);
    }
}

#[test]
fn mba_u32_known_ciphertext() {
    assert_eq!(mba_encode_u32(0xdeadbeef, 0x12345678), 0x9b415516);
}

#[test]
fn mba_u64_roundtrip_samples() {
    let cases: Vec<(u64, u64)> = vec![
        (0, 0),
        (1, u64::MAX),
        (0x0123456789abcdef, 0xfedcba98),
        (u64::MAX, 0xcafef00d),
    ];
    for (value, key) in cases {
        assert_eq!(mba_decode_u64(mba_encode_u64(value, key), key), value);
    }
}

#[test]
fn mba_u64_known_ciphertext() {
    assert_eq!(mba_encode_u64(0x0123456789abcdef, 0xfedcba98), 0x53fe2d9f9290997a);
}

#[test]
fn runtime_encode_roundtrip() {
    for value in [0u64, 1, 123456789, u64::MAX, 0xdeadbeefcafebabe] {
        assert_eq!(runtime_decode(runtime_encode(value)), value);
    }
    assert_eq!(runtime_encode(123456789), 0x38e80262a952e230);
}

#[test]
fn stream_cipher_roundtrip() {
    let data = b"super secret password".to_vec();
    let keys = gen_keystream(0xc0ffee, data.len());
    let cipher = encrypt_bytes(&data, &keys);
    assert_ne!(cipher, data);
    let plain = decrypt_bytes(&cipher, &keys);
    assert_eq!(plain, data);
}

#[test]
fn stream_cipher_empty_buffer() {
    let keys = gen_keystream(7, 0);
    assert!(keys.is_empty());
    let cipher = encrypt_bytes(&[], &keys);
    assert!(cipher.is_empty());
    let plain = decrypt_bytes(&cipher, &keys);
    assert!(plain.is_empty());
}

#[test]
fn encrypt_twice_is_identity() {
    let data = vec![0u8, 1, 2, 3, 254, 255, 17];
    let keys = gen_keystream(42, data.len());
    let twice = encrypt_bytes(&encrypt_bytes(&data, &keys), &keys);
    assert_eq!(twice, data);
}

#[test]
fn wide_cipher_roundtrip() {
    let data: Vec<u16> = vec![0x0041, 0x20ac, 0xd83d, 0xde80, 0xffff, 0];
    let keys = gen_wide_keys(0xabcd, data.len());
    let cipher = encrypt_wide(&data, &keys);
    assert_ne!(cipher, data);
    let plain = decrypt_wide(&cipher, &keys);
    assert_eq!(plain, data);
}

#[test]
fn cascade_roundtrip_all_round_counts() {
    let data = vec![1u8, 2, 3, 250, 255, 0, 77];
    for rounds in 0..=50 {
        let cipher = cascade_encrypt(&data, rounds);
        assert_eq!(cascade_decrypt(&cipher, rounds), data);
    }
}

#[test]
fn cascade_zero_rounds_is_identity() {
    let data = vec![9u8, 8, 7];
    assert_eq!(cascade_encrypt(&data, 0), data);
    assert_eq!(cascade_decrypt(&data, 0), data);
}

#[test]
fn cascade_known_ciphertexts() {
    let data = vec![1u8, 2, 3, 255];
    assert_eq!(cascade_encrypt(&data, 1), vec![15u8, 6, 29, 31]);
    assert_eq!(cascade_encrypt(&data, 3), vec![129u8, 42, 123, 225]);
}

#[test]
fn xor_stream_applied_twice_restores() {
    let original = vec![10u8, 20, 30, 40, 50, 60, 70];
    let key = vec![0xaau8, 0x55, 0x0f];
    let mut data = original.clone();
    xor_stream(&mut data, &key);
    assert_ne!(data, original);
    xor_stream(&mut data, &key);
    assert_eq!(data, original);
}

#[test]
fn xor_stream_repeats_key() {
    let mut data = vec![0u8; 5];
    let key = vec![1u8, 2];
    xor_stream(&mut data, &key);
    assert_eq!(data, vec![1u8, 2, 1, 2, 1]);
}

#[test]
fn obfuscated_value_roundtrip() {
    let container = ObfuscatedValue::new(123456789u64);
    assert_eq!(container.get(), 123456789u64);
}

#[test]
fn obfuscated_value_never_stores_plaintext() {
    for value in [123456789u64, 0xdeadbeefcafebabe, 1, u64::MAX] {
        let container = ObfuscatedValue::new(value);
        let masked = container.masked_bytes();
        assert_eq!(masked.len(), 8);
        assert_ne!(masked, value.to_le_bytes().to_vec());
        assert_eq!(container.get(), value);
    }
}

#[test]
fn obfuscated_value_u32_roundtrip() {
    let container = ObfuscatedValue::new(0xfeedface_u32);
    assert_eq!(container.get(), 0xfeedface_u32);
    assert_eq!(container.masked_bytes().len(), 4);
}
