use soroban_sdk::crypto::bn254::{Bn254G1Affine, Bn254G2Affine};
use soroban_sdk::Env;
use stellarzk_contracts::bn254_verifier::{g1_is_valid, BN254Verifier, Groth16Proof, VerifierError, VerifyingKey};
use stellarzk_contracts::field::g1_negate;

fn dummy_g1() -> [u8; 64] {
    [0u8; 64]
}
fn dummy_g2() -> [u8; 128] {
    [0u8; 128]
}
fn dummy_scalar() -> [u8; 32] {
    [1u8; 32]
}

fn hex32(s: &str) -> [u8; 32] {
    let mut out = [0u8; 32];
    let digits = format!("{:0>64}", s);
    for i in 0..32 {
        out[i] = u8::from_str_radix(&digits[2 * i..2 * i + 2], 16).unwrap();
    }
    out
}

/// The G1 generator (1, 2).
fn g1_generator() -> [u8; 64] {
    let mut p = [0u8; 64];
    p[31] = 1;
    p[63] = 2;
    p
}

/// The G2 generator, x.c1 || x.c0 || y.c1 || y.c0.
fn g2_generator() -> [u8; 128] {
    let parts = [
        hex32("198e9393920d483a7260bfb731fb5d25f1aa493335a9e71297e485b7aef312c2"),
        hex32("1800deef121f1e76426a00665e5c4479674322d4f75edadd46debd5cd992f6ed"),
        hex32("090689d0585ff075ec9e99ad690c3395bc4b313370b38ef355acdadcd122975b"),
        hex32("12c85ea5db8c6deb4aab71808dcb408fe3d1e7690c43d37b4ce6cc0166fa7daa"),
    ];
    let mut out = [0u8; 128];
    for (k, part) in parts.iter().enumerate() {
        out[32 * k..32 * k + 32].copy_from_slice(part);
    }
    out
}

fn key_with_ic(ic: Vec<[u8; 64]>) -> VerifyingKey {
    VerifyingKey { alpha: dummy_g1(), beta: dummy_g2(), gamma: dummy_g2(), delta: dummy_g2(), ic }
}

fn dummy_proof() -> Groth16Proof {
    Groth16Proof { a: dummy_g1(), b: dummy_g2(), c: dummy_g1() }
}

/// The contract's entry: the checks it aborts on, then `verify`.
fn verify_on_host(
    env: &Env,
    verifier: &BN254Verifier,
    circuit_id: [u8; 32],
    proof: &Groth16Proof,
    inputs: &Vec<[u8; 32]>,
) -> Result<bool, VerifierError> {
    verifier.check_verify(env, circuit_id, proof, inputs)?;
    Ok(verifier.verify(env, circuit_id, proof, inputs))
}

#[test]
fn register_and_verify() {
    let env = Env::default();
    let mut verifier = BN254Verifier::new();
    let circuit_id = dummy_scalar();

    let vk = VerifyingKey {
        alpha: dummy_g1(),
        beta: dummy_g2(),
        gamma: dummy_g2(),
        delta: dummy_g2(),
        ic: vec![dummy_g1(), dummy_g1()],
    };

    verifier.register_vk(circuit_id, vk);

    let proof = Groth16Proof { a: dummy_g1(), b: dummy_g2(), c: dummy_g1() };

    let inputs = vec![dummy_scalar()];
    assert!(verify_on_host(&env, &verifier, circuit_id, &proof, &inputs).unwrap());
}

#[test]
fn proof_failing_the_pairing_equation_is_rejected() {
    let env = Env::default();
    let mut verifier = BN254Verifier::new();
    verifier.register_vk([1u8; 32], key_with_ic(vec![dummy_g1(), dummy_g1()]));
    let proof = Groth16Proof { a: g1_generator(), b: g2_generator(), c: dummy_g1() };
    assert_eq!(verify_on_host(&env, &verifier, [1u8; 32], &proof, &vec![dummy_scalar()]), Ok(false));
}

#[test]
fn proof_meeting_the_pairing_equation_is_accepted() {
    // e(G1, G2) * e(-G1, G2) == 1, with L = C = 0.
    let env = Env::default();
    let mut verifier = BN254Verifier::new();
    let mut vk = key_with_ic(vec![dummy_g1(), dummy_g1()]);
    vk.alpha = g1_generator();
    vk.beta = g2_generator();
    verifier.register_vk([1u8; 32], vk);
    let proof = Groth16Proof { a: g1_generator(), b: g2_generator(), c: dummy_g1() };
    assert_eq!(verify_on_host(&env, &verifier, [1u8; 32], &proof, &vec![dummy_scalar()]), Ok(true));
}

#[test]
fn linear_combination_uses_the_inputs() {
    // IC = [0, G], input 1: L = G, so the check e(G1, G2) * e(-L, G2) holds.
    let env = Env::default();
    let mut verifier = BN254Verifier::new();
    let mut vk = key_with_ic(vec![dummy_g1(), g1_generator()]);
    vk.gamma = g2_generator();
    verifier.register_vk([2u8; 32], vk);
    let proof = Groth16Proof { a: g1_generator(), b: g2_generator(), c: dummy_g1() };
    let mut one = [0u8; 32];
    one[31] = 1;
    assert_eq!(verify_on_host(&env, &verifier, [2u8; 32], &proof, &vec![one]), Ok(true));
    let mut two = [0u8; 32];
    two[31] = 2;
    assert_eq!(verify_on_host(&env, &verifier, [2u8; 32], &proof, &vec![two]), Ok(false));
}

#[test]
fn verify_unknown_circuit_is_refused() {
    let env = Env::default();
    let verifier = BN254Verifier::new();
    assert!(!verifier.has_vk(&[7u8; 32]));
    assert_eq!(
        verify_on_host(&env, &verifier, [7u8; 32], &dummy_proof(), &vec![dummy_scalar()]),
        Err(VerifierError::VerifyingKeyNotRegistered)
    );
}

#[test]
fn verify_with_wrong_input_count_is_refused() {
    let env = Env::default();
    let mut verifier = BN254Verifier::new();
    verifier.register_vk([7u8; 32], key_with_ic(vec![dummy_g1(), dummy_g1()]));
    let two = vec![dummy_scalar(), dummy_scalar()];
    assert_eq!(verify_on_host(&env, &verifier, [7u8; 32], &dummy_proof(), &two), Err(VerifierError::WrongInputCount));
}

#[test]
fn verify_against_key_without_ic_points_is_refused() {
    let env = Env::default();
    let mut verifier = BN254Verifier::new();
    verifier.register_vk([7u8; 32], key_with_ic(Vec::new()));
    let none: Vec<[u8; 32]> = Vec::new();
    assert_eq!(verify_on_host(&env, &verifier, [7u8; 32], &dummy_proof(), &none), Err(VerifierError::WrongInputCount));
}

#[test]
fn verify_answers_the_same_on_repeated_calls() {
    let env = Env::default();
    let mut verifier = BN254Verifier::new();
    let mut vk = key_with_ic(vec![dummy_g1()]);
    vk.alpha = g1_generator();
    vk.beta = g2_generator();
    verifier.register_vk([7u8; 32], vk);
    let proof = Groth16Proof { a: g1_generator(), b: g2_generator(), c: dummy_g1() };
    let none: Vec<[u8; 32]> = Vec::new();
    let first = verifier.verify(&env, [7u8; 32], &proof, &none);
    assert!(first);
    assert_eq!(verifier.verify(&env, [7u8; 32], &proof, &none), first);
}

#[test]
fn linear_combination_without_inputs_is_ic0() {
    let env = Env::default();
    let vk = key_with_ic(vec![g1_generator()]);
    let none: Vec<[u8; 32]> = Vec::new();
    assert_eq!(BN254Verifier::compute_linear_combination(&env, &vk, &none), g1_generator());
}

#[test]
fn linear_combination_with_inputs_adds_the_products() {
    // IC = [G, G], input 2: L = G + 2G = 3G.
    let env = Env::default();
    let vk = key_with_ic(vec![g1_generator(), g1_generator()]);
    let mut two = [0u8; 32];
    two[31] = 2;
    let l = BN254Verifier::compute_linear_combination(&env, &vk, &vec![two]);
    let bn = env.crypto().bn254();
    let g = Bn254G1Affine::from_array(&env, &g1_generator());
    let three_g = bn.g1_add(&bn.g1_add(&g, &g), &g).to_array();
    assert_eq!(l, three_g);
    assert_ne!(l, g1_generator());
}

#[test]
fn pairing_check_negates_alpha_l_and_c() {
    // e(G, G2) * e(-G, G2) == 1 with L = C = 0; with alpha not negated it fails.
    let env = Env::default();
    let mut vk = key_with_ic(vec![dummy_g1()]);
    vk.alpha = g1_generator();
    vk.beta = g2_generator();
    let proof = Groth16Proof { a: g1_generator(), b: g2_generator(), c: dummy_g1() };
    assert!(BN254Verifier::pairing_check(&env, &proof, &vk, &dummy_g1()));
    let neg_g = g1_negate(&g1_generator());
    let mut vk2 = key_with_ic(vec![dummy_g1()]);
    vk2.alpha = neg_g;
    vk2.beta = g2_generator();
    assert!(!BN254Verifier::pairing_check(&env, &proof, &vk2, &dummy_g1()));
    let bn = env.crypto().bn254();
    let mut g1 = soroban_sdk::Vec::new(&env);
    g1.push_back(Bn254G1Affine::from_array(&env, &g1_generator()));
    g1.push_back(Bn254G1Affine::from_array(&env, &neg_g));
    let mut g2 = soroban_sdk::Vec::new(&env);
    g2.push_back(Bn254G2Affine::from_array(&env, &g2_generator()));
    g2.push_back(Bn254G2Affine::from_array(&env, &g2_generator()));
    assert!(bn.pairing_check(g1, g2));
}

#[test]
fn g1_validity_follows_the_curve() {
    let env = Env::default();
    assert!(g1_is_valid(&env, &dummy_g1()));
    assert!(g1_is_valid(&env, &g1_generator()));
    let mut off = g1_generator();
    off[63] = 3;
    assert!(!g1_is_valid(&env, &off));
    let mut big = [0xffu8; 64];
    big[0] = 0x30;
    assert!(!g1_is_valid(&env, &big));
}

#[test]
fn invalid_ic_point_is_refused() {
    let env = Env::default();
    let mut verifier = BN254Verifier::new();
    let mut off = g1_generator();
    off[63] = 3;
    verifier.register_vk([7u8; 32], key_with_ic(vec![dummy_g1(), off]));
    assert_eq!(
        verify_on_host(&env, &verifier, [7u8; 32], &dummy_proof(), &vec![dummy_scalar()]),
        Err(VerifierError::InvalidPoint)
    );
}

#[test]
fn invalid_proof_point_is_refused() {
    let env = Env::default();
    let mut verifier = BN254Verifier::new();
    verifier.register_vk([7u8; 32], key_with_ic(vec![dummy_g1()]));
    let mut off = g1_generator();
    off[63] = 3;
    let proof = Groth16Proof { a: off, b: dummy_g2(), c: dummy_g1() };
    let none: Vec<[u8; 32]> = Vec::new();
    assert_eq!(verify_on_host(&env, &verifier, [7u8; 32], &proof, &none), Err(VerifierError::InvalidPoint));
}

#[test]
fn proof_with_non_field_y_is_refused() {
    let env = Env::default();
    let mut verifier = BN254Verifier::new();
    verifier.register_vk([7u8; 32], key_with_ic(vec![dummy_g1()]));
    let mut bad = [0u8; 64];
    for b in bad[32..].iter_mut() {
        *b = 0xff;
    }
    let proof = Groth16Proof { a: dummy_g1(), b: dummy_g2(), c: bad };
    let none: Vec<[u8; 32]> = Vec::new();
    assert_eq!(verify_on_host(&env, &verifier, [7u8; 32], &proof, &none), Err(VerifierError::InvalidFieldElement));
}

#[test]
fn get_vk_returns_registered_key() {
    let mut verifier = BN254Verifier::new();
    let mut point = [0u8; 64];
    point[10] = 42;
    let mut vk = key_with_ic(vec![point]);
    vk.alpha[0] = 5;
    vk.delta[127] = 6;
    verifier.register_vk([3u8; 32], vk);
    let got = verifier.get_vk([3u8; 32]);
    assert_eq!(got.alpha[0], 5);
    assert_eq!(got.delta[127], 6);
    assert_eq!(got.ic, vec![point]);
}

#[test]
fn get_vk_of_unknown_circuit_is_not_found() {
    let mut verifier = BN254Verifier::new();
    verifier.register_vk([3u8; 32], key_with_ic(vec![dummy_g1()]));
    assert!(!verifier.has_vk(&[4u8; 32]));
    assert!(verifier.has_vk(&[3u8; 32]));
}

#[test]
fn register_replaces_previous_key() {
    let mut verifier = BN254Verifier::new();
    verifier.register_vk([3u8; 32], key_with_ic(vec![dummy_g1()]));
    verifier.register_vk([3u8; 32], key_with_ic(vec![dummy_g1(), dummy_g1(), dummy_g1()]));
    assert_eq!(verifier.get_vk([3u8; 32]).ic.len(), 3);
    let env = Env::default();
    let two = vec![dummy_scalar(), dummy_scalar()];
    assert_eq!(verifier.check_verify(&env, [3u8; 32], &dummy_proof(), &two), Ok(()));
    assert_eq!(verifier.check_verify(&env, [3u8; 32], &dummy_proof(), &vec![dummy_scalar()]), Err(VerifierError::WrongInputCount));
}

#[test]
fn register_leaves_other_circuits() {
    let mut verifier = BN254Verifier::new();
    verifier.register_vk([1u8; 32], key_with_ic(vec![dummy_g1()]));
    verifier.register_vk([2u8; 32], key_with_ic(vec![dummy_g1(), dummy_g1()]));
    assert_eq!(verifier.get_vk([1u8; 32]).ic.len(), 1);
    assert_eq!(verifier.get_vk([2u8; 32]).ic.len(), 2);
}

#[test]
fn verifier_error_messages() {
    assert_eq!(VerifierError::VerifyingKeyNotRegistered.message(), "verifying key not registered");
    assert_eq!(VerifierError::WrongInputCount.message(), "wrong number of public inputs");
    assert_eq!(VerifierError::NotFound.message(), "not found");
    assert_eq!(VerifierError::InvalidFieldElement.message(), "Bn254: Invalid Fp");
    assert_eq!(VerifierError::InvalidPoint.message(), "bn254: invalid G1 point");
}
