use std::hash::Hasher;

use canonical_build::stable_hash::{encode_hash, hash_bytes, short_hash};

#[test]
fn encode_hash_agrees_with_base32hex_of_little_endian_bytes() {
    let samples: [u64; 8] = [
        0,
        1,
        31,
        32,
        0xff,
        0x0123_4567_89ab_cdef,
        0x8000_0000_0000_0000,
        u64::MAX,
    ];
    for hash in samples {
        let expected = data_encoding::BASE32HEX_NOPAD.encode(&hash.to_le_bytes());
        assert_eq!(encode_hash(hash), expected);
    }
}

#[test]
fn encode_hash_exact_values() {
    assert_eq!(encode_hash(0), "0000000000000");
    assert_eq!(encode_hash(1), "0400000000000");
    assert_eq!(encode_hash(u64::MAX), "VVVVVVVVVVVVU");
    assert_eq!(encode_hash(0x0100_0000_0000_0000), "0000000000002");
    assert_eq!(encode_hash(0x7c0a_da23_bf32_1c83), "GCE35FP3R857O");
}

#[test]
fn encode_hash_has_fixed_width_and_alphabet() {
    for hash in [0u64, 7, 1 << 40, u64::MAX / 3, u64::MAX] {
        let text = encode_hash(hash);
        assert_eq!(text.len(), 13);
        assert!(text
            .chars()
            .all(|c| c.is_ascii_digit() || ('A'..='V').contains(&c)));
    }
}

#[test]
fn hash_bytes_reference_vectors() {
    // SipHash-2-4 under the key zero.
    assert_eq!(hash_bytes(b""), 0x1e92_4b9d_7377_00d7);
    let mut input = b"https://github.com/software-mansion/scarb".to_vec();
    input.push(0xff);
    assert_eq!(hash_bytes(&input), 0x7c0a_da23_bf32_1c83);
}

#[test]
#[allow(deprecated)]
fn hash_bytes_agrees_with_the_standard_sip_hasher() {
    let message: Vec<u8> = (0u16..300).map(|i| (i * 7 + 3) as u8).collect();
    for length in 0..message.len() {
        let mut hasher = std::hash::SipHasher::new();
        hasher.write(&message[..length]);
        assert_eq!(hash_bytes(&message[..length]), hasher.finish(), "length {length}");
    }
}

#[test]
fn short_hash_of_known_text() {
    assert_eq!(
        short_hash("https://github.com/software-mansion/scarb"),
        "GCE35FP3R857O"
    );
    assert_eq!(short_hash("https://example.com/baz"), "DN1CBALNAHV78");
    assert_eq!(short_hash("https://github.com/"), "RFH0UAN5K26I4");
}

#[test]
fn short_hash_tells_texts_apart() {
    assert_ne!(short_hash(""), short_hash("\u{0}"));
    assert_ne!(short_hash("a"), short_hash("b"));
    assert_eq!(short_hash("a"), short_hash("a"));
}
