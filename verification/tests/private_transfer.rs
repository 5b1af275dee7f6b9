use stellarzk_contracts::private_transfer::{Address, PrivateTransfer, TransferError, VerifyCall};

fn scalar(v: u8) -> [u8; 32] {
    let mut a = [0u8; 32];
    a[31] = v;
    a
}

fn address(tag: &str) -> Address {
    Address { strkey: tag.as_bytes().to_vec() }
}

fn initialized() -> PrivateTransfer {
    let mut client = PrivateTransfer::new();
    client.initialize(address("ADMIN"), address("VERIFIER"), address("HASHER"), address("TOKEN"));
    client
}

/// The contract's deposit entry: the check it aborts on, then the deposit.
fn deposit_entry(
    client: &mut PrivateTransfer,
    depositor: Address,
    commitment: [u8; 32],
    enc: [u8; 32],
) -> Result<(), TransferError> {
    client.check_deposit(&commitment)?;
    client.deposit(depositor, commitment, enc);
    Ok(())
}

/// The checks a withdrawal aborts on before the verifier is called.
fn withdraw_checks(client: &PrivateTransfer, nullifier: [u8; 32]) -> Result<(), TransferError> {
    client.check_withdraw(&nullifier)
}

fn request(
    client: &PrivateTransfer,
    nullifier: [u8; 32],
    circuit_id: [u8; 32],
    inputs: Vec<[u8; 32]>,
) -> Result<VerifyCall, TransferError> {
    withdraw_checks(client, nullifier)?;
    let mut a = [0u8; 64];
    a[0] = 1;
    let mut b = [0u8; 128];
    b[0] = 2;
    let mut c = [0u8; 64];
    c[0] = 3;
    Ok(client.withdraw_request(nullifier, a, b, c, inputs, circuit_id))
}

/// The contract's withdraw entry, given the verifier's answer.
fn withdraw_entry(client: &mut PrivateTransfer, nullifier: [u8; 32], valid: bool) -> Result<(), TransferError> {
    withdraw_checks(client, nullifier)?;
    PrivateTransfer::check_proof(valid)?;
    client.withdraw(nullifier, valid);
    Ok(())
}

#[test]
fn deposit_creates_commitment() {
    let admin = address("GADMIN");
    let depositor = address("GDEPOSITOR");
    let verifier = address("CVERIFIER");
    let hasher = address("CHASHER");
    let token = address("CTOKEN");

    let mut client = PrivateTransfer::new();
    client.initialize(admin, verifier, hasher, token);

    let commitment = scalar(42);
    let enc_amount = scalar(99);
    deposit_entry(&mut client, depositor, commitment, enc_amount).unwrap();
    assert!(client.commitment_exists(commitment));
}

#[test]
fn nullifier_prevents_double_spend() {
    let client = PrivateTransfer::new();
    let nullifier = scalar(7);
    assert!(!client.is_spent(nullifier));
}

#[test]
fn deposit_of_existing_commitment_is_refused() {
    let mut client = initialized();
    deposit_entry(&mut client, address("A"), scalar(1), scalar(2)).unwrap();
    assert_eq!(deposit_entry(&mut client, address("B"), scalar(1), scalar(3)), Err(TransferError::CommitmentAlreadyExists));
    assert!(client.commitment_exists(scalar(1)));
}

#[test]
fn deposit_does_not_need_initialize() {
    let mut client = PrivateTransfer::new();
    deposit_entry(&mut client, address("A"), scalar(5), scalar(6)).unwrap();
    assert!(client.commitment_exists(scalar(5)));
    assert!(!client.commitment_exists(scalar(6)));
}

#[test]
fn withdraw_spends_nullifier() {
    let mut client = initialized();
    withdraw_entry(&mut client, scalar(7), true).unwrap();
    assert!(client.is_spent(scalar(7)));
    assert!(!client.is_spent(scalar(8)));
}

#[test]
fn second_withdraw_is_refused() {
    let mut client = initialized();
    withdraw_entry(&mut client, scalar(7), true).unwrap();
    assert_eq!(withdraw_entry(&mut client, scalar(7), true), Err(TransferError::NullifierAlreadySpent));
    assert!(matches!(request(&client, scalar(7), scalar(3), vec![scalar(7)]), Err(TransferError::NullifierAlreadySpent)));
}

#[test]
fn withdraw_before_initialize_is_refused() {
    let mut client = PrivateTransfer::new();
    assert!(!client.is_initialized());
    assert_eq!(withdraw_entry(&mut client, scalar(7), true), Err(TransferError::NotInitialized));
    assert!(!client.is_spent(scalar(7)));
}

#[test]
fn withdraw_with_invalid_proof_is_refused() {
    let mut client = initialized();
    assert_eq!(withdraw_entry(&mut client, scalar(7), false), Err(TransferError::InvalidProof));
    assert!(!client.is_spent(scalar(7)));
}

#[test]
fn withdraw_request_names_the_verifier_call() {
    let client = initialized();
    let call = request(&client, scalar(7), scalar(3), vec![scalar(7), scalar(9)]).unwrap();
    assert_eq!(call.verifier.strkey, b"VERIFIER".to_vec());
    assert_eq!(call.circuit_id, scalar(3));
    assert_eq!(call.proof.a[0], 1);
    assert_eq!(call.proof.b[0], 2);
    assert_eq!(call.proof.c[0], 3);
    assert_eq!(call.public_inputs, vec![scalar(7), scalar(9)]);
}

#[test]
fn initialize_replaces_addresses() {
    let mut client = initialized();
    client.initialize(address("ADMIN2"), address("VERIFIER2"), address("HASHER2"), address("TOKEN2"));
    let call = request(&client, scalar(1), scalar(2), Vec::new()).unwrap();
    assert_eq!(call.verifier.strkey, b"VERIFIER2".to_vec());
}

#[test]
fn withdraw_does_not_touch_commitments() {
    let mut client = initialized();
    deposit_entry(&mut client, address("A"), scalar(1), scalar(2)).unwrap();
    withdraw_entry(&mut client, scalar(1), true).unwrap();
    assert!(client.commitment_exists(scalar(1)));
    assert!(client.is_spent(scalar(1)));
}

#[test]
fn address_clone_keeps_bytes() {
    let a = address("GABC");
    assert_eq!(a.clone().strkey, a.strkey);
}

#[test]
fn transfer_error_messages() {
    assert_eq!(TransferError::CommitmentAlreadyExists.message(), "commitment already exists");
    assert_eq!(TransferError::NullifierAlreadySpent.message(), "nullifier already spent");
    assert_eq!(TransferError::NotInitialized.message(), "not initialized");
    assert_eq!(TransferError::InvalidProof.message(), "invalid proof");
}
