use inline_tweak::hasher::{hash_bytes, hash_str, multiply_mix, FxHasher};

#[test]
fn hash_bytes_known_values() {
    assert_eq!(hash_bytes(b""), 0xbc13060e2d1aac79);
    assert_eq!(hash_bytes(b"a"), 0xdfe4b1209783ba09);
    assert_eq!(hash_bytes(b"abc"), 0x800f6fadd6111505);
    assert_eq!(hash_bytes(b"abcd"), 0x5b079a5da0914541);
    assert_eq!(hash_bytes(b"hello world"), 0xae766f086f14d131);
    assert_eq!(hash_bytes(b"0123456789abcdefghij"), 0x1114cca0b20df15e);
}

#[test]
fn hash_str_known_values() {
    assert_eq!(hash_str(""), 0xa305718d88c7e70c);
    assert_eq!(hash_str("main"), 0x142d1f817931705d);
    assert_ne!(hash_str("main"), hash_str("mains"));
}

#[test]
fn hasher_word_and_finish() {
    let mut h = FxHasher::default();
    h.write_u64(5);
    assert_eq!(h.finish(), 0x692e7ed50d9b60b6);
    let mut g = FxHasher::default();
    g.write_u8(5);
    assert_eq!(g.finish(), h.finish());
}

#[test]
fn multiply_mix_folds_product() {
    assert_eq!(multiply_mix(0, 12345), 0);
    assert_eq!(multiply_mix(1 << 32, 1 << 32), 1);
    assert_eq!(multiply_mix(3, 5), 15);
}
