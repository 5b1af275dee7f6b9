use soroban_sdk::Env;
use stellarzk_contracts::field::is_scalar_field_element;
use stellarzk_contracts::poseidon_hasher::{HashError, PoseidonHasher};

fn scalar(val: u8) -> [u8; 32] {
    let mut a = [0u8; 32];
    a[31] = val;
    a
}

fn hex32(s: &str) -> [u8; 32] {
    let mut out = [0u8; 32];
    for i in 0..32 {
        out[i] = u8::from_str_radix(&s[2 * i..2 * i + 2], 16).unwrap();
    }
    out
}

/// The contract's entry: the checks it aborts on, then the hash.
fn hash_entry(env: &Env, inputs: &Vec<[u8; 32]>) -> Result<[u8; 32], HashError> {
    PoseidonHasher::check_inputs(inputs)?;
    Ok(PoseidonHasher::hash(env, inputs))
}

#[test]
fn hash_two_inputs() {
    let env = Env::default();
    let a = scalar(1);
    let b = scalar(2);
    let h = hash_entry(&env, &vec![a, b]).unwrap();
    assert_eq!(h.len(), 32);
}

#[test]
fn different_inputs_different_outputs() {
    let env = Env::default();
    let h1 = hash_entry(&env, &vec![scalar(1), scalar(2)]).unwrap();
    let h2 = hash_entry(&env, &vec![scalar(3), scalar(4)]).unwrap();
    assert_ne!(h1, h2);
}

#[test]
#[should_panic(expected = "Poseidon supports 1-4 inputs")]
fn too_many_inputs_panics() {
    let env = Env::default();
    let inputs = vec![scalar(1), scalar(2), scalar(3), scalar(4), scalar(5)];
    if let Err(e) = hash_entry(&env, &inputs) {
        panic!("{}", e.message());
    }
}

#[test]
fn digest_matches_circom_poseidon_of_one_and_two() {
    let env = Env::default();
    let h = PoseidonHasher::hash(&env, &vec![scalar(1), scalar(2)]);
    assert_eq!(h, hex32("115cc0f5e7d690413df64c6b9662e9cf2a3617f2743245519e19607a4417189a"));
}

#[test]
fn digest_depends_on_input_order() {
    let env = Env::default();
    let h1 = PoseidonHasher::hash(&env, &vec![scalar(1), scalar(2)]);
    let h2 = PoseidonHasher::hash(&env, &vec![scalar(2), scalar(1)]);
    assert_ne!(h1, h2);
    let h3 = PoseidonHasher::hash(&env, &vec![scalar(5), scalar(5)]);
    let h4 = PoseidonHasher::hash(&env, &vec![scalar(6), scalar(6)]);
    assert_ne!(h3, h4);
}

#[test]
fn one_to_four_inputs_are_hashed() {
    let env = Env::default();
    let h1 = PoseidonHasher::hash(&env, &vec![scalar(1)]);
    let h3 = PoseidonHasher::hash(&env, &vec![scalar(1), scalar(2), scalar(3)]);
    let h4 = PoseidonHasher::hash(&env, &vec![scalar(1), scalar(2), scalar(3), scalar(4)]);
    assert_ne!(h1, h3);
    assert_ne!(h3, h4);
}

#[test]
fn empty_input_is_refused() {
    let env = Env::default();
    assert_eq!(hash_entry(&env, &Vec::new()), Err(HashError::UnsupportedInputCount));
}

#[test]
fn input_above_modulus_is_refused() {
    let env = Env::default();
    assert_eq!(hash_entry(&env, &vec![[0xffu8; 32]]), Err(HashError::InputExceedsFieldModulus));
}

#[test]
fn check_inputs_reports_the_first_failing_check() {
    assert_eq!(PoseidonHasher::check_inputs(&vec![scalar(1)]), Ok(()));
    assert_eq!(PoseidonHasher::check_inputs(&vec![scalar(1); 4]), Ok(()));
    assert_eq!(PoseidonHasher::check_inputs(&vec![[0xffu8; 32]; 5]), Err(HashError::UnsupportedInputCount));
    assert_eq!(PoseidonHasher::check_inputs(&vec![scalar(1), [0xffu8; 32]]), Err(HashError::InputExceedsFieldModulus));
}

#[test]
fn digest_is_a_field_element() {
    let env = Env::default();
    for inputs in [vec![scalar(1)], vec![scalar(1), scalar(2)], vec![scalar(3); 3], vec![scalar(4); 4]] {
        assert!(is_scalar_field_element(&PoseidonHasher::hash(&env, &inputs)));
    }
}

#[test]
fn error_messages_match_contract() {
    assert_eq!(HashError::UnsupportedInputCount.message(), "Poseidon supports 1-4 inputs");
    assert_eq!(HashError::InputExceedsFieldModulus.message(), "input exceeds field modulus");
}

#[test]
fn commit_is_hash_of_secret_and_nonce() {
    let env = Env::default();
    let c = PoseidonHasher::commit(&env, scalar(1), scalar(2));
    assert_eq!(c, hex32("115cc0f5e7d690413df64c6b9662e9cf2a3617f2743245519e19607a4417189a"));
    assert_eq!(PoseidonHasher::commit(&env, scalar(9), scalar(12)), PoseidonHasher::hash(&env, &vec![scalar(9), scalar(12)]));
}

#[test]
fn nullifier_is_hash_with_spent_flag() {
    let env = Env::default();
    let n = PoseidonHasher::nullifier(&env, scalar(9), scalar(12));
    assert_eq!(n, PoseidonHasher::hash(&env, &vec![scalar(9), scalar(12), scalar(1)]));
    assert_ne!(n, PoseidonHasher::commit(&env, scalar(9), scalar(12)));
}
