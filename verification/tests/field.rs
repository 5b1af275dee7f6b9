use stellarzk_contracts::field::{g1_is_negatable, g1_negate, is_scalar_field_element};

const FP: [u8; 32] = [
    0x30, 0x64, 0x4e, 0x72, 0xe1, 0x31, 0xa0, 0x29, 0xb8, 0x50, 0x45, 0xb6, 0x81, 0x81, 0x58, 0x5d,
    0x97, 0x81, 0x6a, 0x91, 0x68, 0x71, 0xca, 0x8d, 0x3c, 0x20, 0x8c, 0x16, 0xd8, 0x7c, 0xfd, 0x47,
];

const FR: [u8; 32] = [
    0x30, 0x64, 0x4e, 0x72, 0xe1, 0x31, 0xa0, 0x29, 0xb8, 0x50, 0x45, 0xb6, 0x81, 0x81, 0x58, 0x5d,
    0x28, 0x33, 0xe8, 0x48, 0x79, 0xb9, 0x70, 0x91, 0x43, 0xe1, 0xf5, 0x93, 0xf0, 0x00, 0x00, 0x01,
];

#[test]
fn negation_of_generator_is_p_minus_two() {
    let mut g = [0u8; 64];
    g[31] = 1;
    g[63] = 2;
    assert!(g1_is_negatable(&g));
    let n = g1_negate(&g);
    let mut p_minus_2 = FP;
    p_minus_2[31] = 0x45;
    assert_eq!(&n[..32], &g[..32]);
    assert_eq!(&n[32..], &p_minus_2[..]);
}

#[test]
fn negation_of_zero_y_is_zero() {
    let mut p = [0u8; 64];
    p[0] = 9;
    assert_eq!(g1_negate(&p), p);
}

#[test]
fn negation_twice_is_identity() {
    let mut g = [0u8; 64];
    g[31] = 1;
    g[63] = 2;
    g[40] = 0x77;
    let n = g1_negate(&g);
    assert_eq!(g1_negate(&n), g);
}

#[test]
fn y_at_or_above_modulus_cannot_be_negated() {
    let mut p = [0u8; 64];
    p[32..].copy_from_slice(&FP);
    assert!(!g1_is_negatable(&p));
    p[63] = 0x48;
    assert!(!g1_is_negatable(&p));
    p[63] = 0x46;
    assert!(g1_is_negatable(&p));
}

#[test]
fn scalar_field_elements_are_below_r() {
    assert!(is_scalar_field_element(&[0u8; 32]));
    assert!(!is_scalar_field_element(&FR));
    let mut r_minus_1 = FR;
    r_minus_1[31] = 0;
    assert!(is_scalar_field_element(&r_minus_1));
    assert!(!is_scalar_field_element(&[0xffu8; 32]));
}
