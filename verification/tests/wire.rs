use qubitum_protocol::build_wire_ciphertext;

#[test]
fn wire_ciphertext_concatenates_fields_in_order() {
    let key_hash = [7u8; 16];
    let kem_ct = [1u8, 2, 3];
    let nonce = [9u8; 24];
    let aead_ct = [0xAAu8, 0xBB];

    let wire = build_wire_ciphertext(&key_hash, &kem_ct, &nonce, &aead_ct);

    let mut expected = vec![7u8; 16];
    expected.extend_from_slice(&[3, 0]);
    expected.extend_from_slice(&[1, 2, 3]);
    expected.extend_from_slice(&[9u8; 24]);
    expected.extend_from_slice(&[0xAA, 0xBB]);
    assert_eq!(wire, expected);
    assert_eq!(wire.len(), 16 + 2 + 3 + 24 + 2);
}

#[test]
fn wire_ciphertext_writes_length_little_endian() {
    let kem_ct = vec![0x42u8; 1088];
    let wire = build_wire_ciphertext(&[0u8; 16], &kem_ct, &[0u8; 24], &[]);
    assert_eq!(&wire[16..18], &[0x40, 0x04]);
    assert_eq!(&wire[18..18 + 1088], kem_ct.as_slice());
    assert_eq!(wire.len(), 16 + 2 + 1088 + 24);
}

#[test]
fn wire_ciphertext_length_wraps_at_sixteen_bits() {
    let kem_ct = vec![0u8; 65_536 + 5];
    let wire = build_wire_ciphertext(&[1u8; 16], &kem_ct, &[2u8; 24], &[3u8]);
    assert_eq!(&wire[16..18], &[5, 0]);
    assert_eq!(wire.len(), 16 + 2 + 65_541 + 24 + 1);
}

#[test]
fn wire_ciphertext_with_empty_payloads() {
    let wire = build_wire_ciphertext(&[5u8; 16], &[], &[6u8; 24], &[]);
    let mut expected = vec![5u8; 16];
    expected.extend_from_slice(&[0, 0]);
    expected.extend_from_slice(&[6u8; 24]);
    assert_eq!(wire, expected);
}
