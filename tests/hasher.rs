use smt_store::hasher::Blake3SmtHasher;

#[test]
fn one_shot_digest_is_blake3() {
    let h = Blake3SmtHasher::new();
    assert_eq!(h.digest(b"abc"), *blake3::hash(b"abc").as_bytes());
    assert_ne!(h.digest(&[0u8; 32]), [0u8; 32]);
}

#[test]
fn empty_input_digest() {
    let expected: [u8; 32] = [
        0xaf, 0x13, 0x49, 0xb9, 0xf5, 0xf9, 0xa1, 0xa6, 0xa0, 0x40, 0x4d, 0xea, 0x36, 0xdc, 0xc9,
        0x49, 0x9b, 0xcb, 0x25, 0xc9, 0xad, 0xc1, 0x12, 0xb7, 0xcc, 0x9a, 0x93, 0xca, 0xe4, 0x1f,
        0x32, 0x62,
    ];
    assert_eq!(Blake3SmtHasher::new().finish(), expected);
}

#[test]
fn streaming_matches_one_shot() {
    let mut s = Blake3SmtHasher::new();
    s.write_h256(&[0x11; 32]);
    s.write_byte(0x22);
    s.update(b"tail");
    let mut whole = vec![0x11; 32];
    whole.push(0x22);
    whole.extend_from_slice(b"tail");
    let one_shot = Blake3SmtHasher::default().digest(&whole);
    assert_eq!(s.clone().finish(), one_shot);
    assert_eq!(s.finalize(), one_shot);
}

#[test]
fn output_size_is_32() {
    assert_eq!(Blake3SmtHasher::output_size(), 32);
}
