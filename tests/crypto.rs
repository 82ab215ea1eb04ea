use conflux_keys::crypto::decode_der_sig;

const ORDER: [u8; 32] = [
    0xFF, 0xFF, 0xFF, 0xFF, 0xFF, 0xFF, 0xFF, 0xFF, 0xFF, 0xFF, 0xFF, 0xFF, 0xFF, 0xFF, 0xFF, 0xFE,
    0xBA, 0xAE, 0xDC, 0xE6, 0xAF, 0x48, 0xA0, 0x3B, 0xBF, 0xD2, 0x5E, 0x8C, 0xD0, 0x36, 0x41, 0x41,
];

fn padded(tail: &[u8]) -> [u8; 32] {
    let mut out = [0u8; 32];
    out[32 - tail.len()..].copy_from_slice(tail);
    out
}

fn check_rejected(der: &[u8]) {
    let mut r = [0xAAu8; 32];
    let mut s = [0x55u8; 32];
    assert_eq!(decode_der_sig(der, &mut r, &mut s), Err("der_sig decode failed"));
    assert_eq!(r, [0xAAu8; 32]);
    assert_eq!(s, [0x55u8; 32]);
}

#[test]
fn minimal_small_components_are_left_padded() {
    let der = [0x30, 0x06, 0x02, 0x01, 0x01, 0x02, 0x01, 0x02];
    let mut r = [0xAAu8; 32];
    let mut s = [0x55u8; 32];
    assert_eq!(decode_der_sig(&der, &mut r, &mut s), Ok(()));
    assert_eq!(r, padded(&[0x01]));
    assert_eq!(s, padded(&[0x02]));
}

#[test]
fn high_bit_component_with_sign_byte_round_trips() {
    let mut der = vec![0x30, 0x26, 0x02, 0x21, 0x00, 0x80];
    der.extend_from_slice(&[0u8; 31]);
    der.extend_from_slice(&[0x02, 0x01, 0x7f]);
    let mut r = [0u8; 32];
    let mut s = [0u8; 32];
    assert_eq!(decode_der_sig(&der, &mut r, &mut s), Ok(()));
    let mut expected_r = [0u8; 32];
    expected_r[0] = 0x80;
    assert_eq!(r, expected_r);
    assert_eq!(s, padded(&[0x7f]));
}

#[test]
fn largest_valid_component_round_trips() {
    let mut below_order = ORDER;
    below_order[31] -= 1;
    let mut der = vec![0x30, 0x26, 0x02, 0x21, 0x00];
    der.extend_from_slice(&below_order);
    der.extend_from_slice(&[0x02, 0x01, 0x05]);
    let mut r = [0u8; 32];
    let mut s = [0u8; 32];
    assert_eq!(decode_der_sig(&der, &mut r, &mut s), Ok(()));
    assert_eq!(r, below_order);
    assert_eq!(s, padded(&[0x05]));
}

#[test]
fn component_equal_to_group_order_decodes() {
    let mut der = vec![0x30, 0x26, 0x02, 0x21, 0x00];
    der.extend_from_slice(&ORDER);
    der.extend_from_slice(&[0x02, 0x01, 0x01]);
    let mut r = [0u8; 32];
    let mut s = [0u8; 32];
    assert_eq!(decode_der_sig(&der, &mut r, &mut s), Ok(()));
    assert_eq!(r, ORDER);
    assert_eq!(s, padded(&[0x01]));
}

#[test]
fn largest_256_bit_components_decode() {
    let mut der = vec![0x30, 0x46, 0x02, 0x21, 0x00];
    der.extend_from_slice(&[0xFF; 32]);
    der.extend_from_slice(&[0x02, 0x21, 0x00]);
    der.extend_from_slice(&[0xFF; 32]);
    let mut r = [0u8; 32];
    let mut s = [0u8; 32];
    assert_eq!(decode_der_sig(&der, &mut r, &mut s), Ok(()));
    assert_eq!(r, [0xFF; 32]);
    assert_eq!(s, [0xFF; 32]);
}

#[test]
fn zero_component_is_rejected() {
    check_rejected(&[0x30, 0x06, 0x02, 0x01, 0x00, 0x02, 0x01, 0x02]);
}

#[test]
fn wrong_sequence_tag_is_rejected() {
    check_rejected(&[0x31, 0x06, 0x02, 0x01, 0x01, 0x02, 0x01, 0x02]);
}

#[test]
fn wrong_integer_tag_is_rejected() {
    check_rejected(&[0x30, 0x06, 0x03, 0x01, 0x01, 0x02, 0x01, 0x02]);
}

#[test]
fn truncated_signature_is_rejected() {
    check_rejected(&[0x30, 0x06, 0x02, 0x01, 0x01, 0x02, 0x01]);
    check_rejected(&[]);
}

#[test]
fn trailing_bytes_are_rejected() {
    check_rejected(&[0x30, 0x06, 0x02, 0x01, 0x01, 0x02, 0x01, 0x02, 0x00]);
}

#[test]
fn integer_wider_than_32_bytes_is_rejected() {
    let mut der = vec![0x30, 0x27, 0x02, 0x22, 0x00, 0x80];
    der.extend_from_slice(&[0u8; 32]);
    der.extend_from_slice(&[0x02, 0x01, 0x02]);
    check_rejected(&der);
}

#[test]
fn non_minimal_integer_is_rejected() {
    check_rejected(&[0x30, 0x07, 0x02, 0x02, 0x00, 0x01, 0x02, 0x01, 0x02]);
}
