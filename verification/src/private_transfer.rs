//! PrivateTransfer: deposits recorded as commitments, withdrawals authorised
//! by a Groth16 proof and recorded by their nullifier, so that a note is
//! spent at most once.
//!
//! A withdrawal runs in two steps around the cross-contract call to the
//! verifier contract: `withdraw_request` names the call to make, and
//! `withdraw` spends the nullifier once the verifier has accepted the proof.
//!
//! Where the contract aborts (a stored commitment, a spent nullifier, no
//! verifier contract, a rejected proof) the entry points require that the
//! case does not arise; `check_deposit`, `check_withdraw` and `check_proof`
//! tell which abort comes first, with the message of `TransferError`. An
//! aborted call leaves the storage as it was.

use vstd::prelude::*;

use crate::bn254_verifier::Groth16Proof;
use crate::store::PersistentMap;

verus! {

/// An account or contract address, held as its strkey text (`G...`, `C...`).
pub struct Address {
    pub strkey: Vec<u8>,
}

impl View for Address {
    type V = Seq<u8>;

    open spec fn view(&self) -> Seq<u8> {
        self.strkey@
    }
}

impl Clone for Address {
    fn clone(&self) -> (res: Self)
        ensures
            res@ == self@,
    {
        let mut strkey: Vec<u8> = Vec::new();
        let mut i: usize = 0;
        while i < self.strkey.len()
            invariant
                i <= self.strkey@.len(),
                strkey@ == self.strkey@.take(i as int),
            decreases self.strkey@.len() - i,
        {
            strkey.push(self.strkey[i]);
            i = i + 1;
            assert(strkey@ =~= self.strkey@.take(i as int));
        }
        assert(strkey@ =~= self.strkey@);
        Address { strkey }
    }
}

/// Storage keys of the transfer contract.
pub enum Key {
    /// stored commitments (value = the deposit note)
    Commitment([u8; 32]),
    /// spent nullifiers (value = true if spent)
    Nullifier([u8; 32]),
    BN254VerifierContract,
    PoseidonHasherContract,
    TokenContract,
    Admin,
}

/// The note stored for a deposit.
pub struct DepositNote {
    pub commitment: [u8; 32],
    pub depositor: Address,
    /// encrypted for depositor only
    pub encrypted_amount: [u8; 32],
}

/// The bytes of a deposit note.
pub struct DepositNoteView {
    pub commitment: Seq<u8>,
    pub depositor: Seq<u8>,
    pub encrypted_amount: Seq<u8>,
}

impl View for DepositNote {
    type V = DepositNoteView;

    open spec fn view(&self) -> DepositNoteView {
        DepositNoteView {
            commitment: self.commitment@,
            depositor: self.depositor@,
            encrypted_amount: self.encrypted_amount@,
        }
    }
}

/// The cross-contract call a withdrawal makes: `verify` on the verifier
/// contract, with the circuit, the Groth16 proof and the public inputs.
pub struct VerifyCall {
    pub verifier: Address,
    pub circuit_id: [u8; 32],
    pub proof: Groth16Proof,
    pub public_inputs: Vec<[u8; 32]>,
}

/// The bytes of a verifier call.
pub struct VerifyCallView {
    pub verifier: Seq<u8>,
    pub circuit_id: Seq<u8>,
    pub proof: Groth16Proof,
    pub public_inputs: Seq<[u8; 32]>,
}

impl View for VerifyCall {
    type V = VerifyCallView;

    open spec fn view(&self) -> VerifyCallView {
        VerifyCallView {
            verifier: self.verifier@,
            circuit_id: self.circuit_id@,
            proof: self.proof,
            public_inputs: self.public_inputs@,
        }
    }
}

/// Why the transfer contract aborts.
#[derive(Debug, PartialEq, Eq, Structural)]
pub enum TransferError {
    /// A deposit named a commitment that is already stored.
    CommitmentAlreadyExists,
    /// A withdrawal named a nullifier that is already spent.
    NullifierAlreadySpent,
    /// A withdrawal came before `initialize` named the verifier contract.
    NotInitialized,
    /// The verifier contract rejected the withdrawal's proof.
    InvalidProof,
}

impl TransferError {
    /// The message the contract aborts with.
    pub fn message(&self) -> (m: &'static str)
        ensures
            m@ == match self {
                TransferError::CommitmentAlreadyExists => "commitment already exists"@,
                TransferError::NullifierAlreadySpent => "nullifier already spent"@,
                TransferError::NotInitialized => "not initialized"@,
                TransferError::InvalidProof => "invalid proof"@,
            },
    {
        match self {
            TransferError::CommitmentAlreadyExists => "commitment already exists",
            TransferError::NullifierAlreadySpent => "nullifier already spent",
            TransferError::NotInitialized => "not initialized",
            TransferError::InvalidProof => "invalid proof",
        }
    }
}

/// The contract's storage: the four addresses of its instance storage and
/// the commitments and nullifiers of its persistent storage.
#[verifier::ext_equal]
pub struct PrivateTransferView {
    pub admin: Option<Seq<u8>>,
    pub bn254_verifier: Option<Seq<u8>>,
    pub poseidon_hasher: Option<Seq<u8>>,
    pub token_contract: Option<Seq<u8>>,
    pub commitments: Map<Seq<u8>, DepositNoteView>,
    pub nullifiers: Map<Seq<u8>, bool>,
}

/// The storage of a freshly deployed contract: nothing stored.
pub open spec fn spec_empty() -> PrivateTransferView {
    PrivateTransferView {
        admin: None,
        bn254_verifier: None,
        poseidon_hasher: None,
        token_contract: None,
        commitments: Map::empty(),
        nullifiers: Map::empty(),
    }
}

/// `initialize` stores the four addresses, replacing any stored before.
pub open spec fn spec_initialize(
    s: PrivateTransferView,
    admin: Seq<u8>,
    bn254_verifier: Seq<u8>,
    poseidon_hasher: Seq<u8>,
    token_contract: Seq<u8>,
) -> PrivateTransferView {
    PrivateTransferView {
        admin: Some(admin),
        bn254_verifier: Some(bn254_verifier),
        poseidon_hasher: Some(poseidon_hasher),
        token_contract: Some(token_contract),
        ..s
    }
}

/// Whether `commitment` is stored.
pub open spec fn spec_commitment_exists(s: PrivateTransferView, commitment: Seq<u8>) -> bool {
    s.commitments.dom().contains(commitment)
}

/// Whether `nullifier` is spent.
pub open spec fn spec_is_spent(s: PrivateTransferView, nullifier: Seq<u8>) -> bool {
    s.nullifiers.dom().contains(nullifier)
}

/// `deposit` stores the note under its commitment.
pub open spec fn spec_deposit(s: PrivateTransferView, note: DepositNoteView) -> PrivateTransferView {
    PrivateTransferView { commitments: s.commitments.insert(note.commitment, note), ..s }
}

/// A withdrawal with `nullifier` does not abort before the verifier is
/// called: the nullifier is unspent and a verifier contract is stored.
pub open spec fn withdraw_allowed(s: PrivateTransferView, nullifier: Seq<u8>) -> bool {
    !spec_is_spent(s, nullifier) && s.bn254_verifier is Some
}

/// The call a withdrawal makes: `verify` on the stored verifier contract,
/// with the circuit, the proof and the public inputs.
pub open spec fn spec_withdraw_request(
    s: PrivateTransferView,
    circuit_id: Seq<u8>,
    proof: Groth16Proof,
    public_inputs: Seq<[u8; 32]>,
) -> VerifyCallView {
    VerifyCallView { verifier: s.bn254_verifier.unwrap(), circuit_id, proof, public_inputs }
}

/// A withdrawal that the verifier accepted marks the nullifier spent.
pub open spec fn spec_withdraw(s: PrivateTransferView, nullifier: Seq<u8>) -> PrivateTransferView {
    PrivateTransferView { nullifiers: s.nullifiers.insert(nullifier, true), ..s }
}

/// Where `deposit` aborts: the commitment is stored already.
pub open spec fn deposit_outcome(s: PrivateTransferView, commitment: Seq<u8>) -> Result<(), TransferError> {
    if spec_commitment_exists(s, commitment) {
        Err(TransferError::CommitmentAlreadyExists)
    } else {
        Ok(())
    }
}

/// Where a withdrawal aborts before the verifier is called, in the order
/// it checks: the nullifier is spent, then no verifier contract is stored.
pub open spec fn withdraw_outcome(s: PrivateTransferView, nullifier: Seq<u8>) -> Result<(), TransferError> {
    if spec_is_spent(s, nullifier) {
        Err(TransferError::NullifierAlreadySpent)
    } else if s.bn254_verifier is None {
        Err(TransferError::NotInitialized)
    } else {
        Ok(())
    }
}

/// The transfer contract and its storage.
pub struct PrivateTransfer {
    /// Instance storage under `Key::Admin`.
    pub admin: Option<Address>,
    /// Instance storage under `Key::BN254VerifierContract`.
    pub bn254_verifier: Option<Address>,
    /// Instance storage under `Key::PoseidonHasherContract`.
    pub poseidon_hasher: Option<Address>,
    /// Instance storage under `Key::TokenContract`.
    pub token_contract: Option<Address>,
    /// Persistent storage under `Key::Commitment(..)`.
    pub commitments: PersistentMap<DepositNote>,
    /// Persistent storage under `Key::Nullifier(..)`.
    pub nullifiers: PersistentMap<bool>,
}

pub open spec fn address_view(a: Option<Address>) -> Option<Seq<u8>> {
    match a {
        Some(x) => Some(x@),
        None => None,
    }
}

impl View for PrivateTransfer {
    type V = PrivateTransferView;

    closed spec fn view(&self) -> PrivateTransferView {
        PrivateTransferView {
            admin: address_view(self.admin),
            bn254_verifier: address_view(self.bn254_verifier),
            poseidon_hasher: address_view(self.poseidon_hasher),
            token_contract: address_view(self.token_contract),
            commitments: self.commitments.entries(),
            nullifiers: self.nullifiers.entries(),
        }
    }
}

impl PrivateTransfer {
    /// The storage is well formed.
    pub closed spec fn wf(&self) -> bool {
        self.commitments.wf() && self.nullifiers.wf()
    }

    /// A freshly deployed contract.
    pub fn new() -> (c: Self)
        ensures
            c.wf(),
            c@ == spec_empty(),
    {
        let c = PrivateTransfer {
            admin: None,
            bn254_verifier: None,
            poseidon_hasher: None,
            token_contract: None,
            commitments: PersistentMap::new(),
            nullifiers: PersistentMap::new(),
        };
        assert(c@ =~= spec_empty());
        c
    }

    /// Stores the admin and the addresses of the verifier, hasher and token
    /// contracts. The admin's authorisation is checked by the host.
    pub fn initialize(
        &mut self,
        admin: Address,
        bn254_verifier: Address,
        poseidon_hasher: Address,
        token_contract: Address,
    )
        requires
            old(self).wf(),
        ensures
            final(self).wf(),
            final(self)@ == spec_initialize(
                old(self)@,
                admin@,
                bn254_verifier@,
                poseidon_hasher@,
                token_contract@,
            ),
    {
        self.admin = Some(admin);
        self.bn254_verifier = Some(bn254_verifier);
        self.poseidon_hasher = Some(poseidon_hasher);
        self.token_contract = Some(token_contract);
        assert(self@ =~= spec_initialize(old(self)@, admin@, bn254_verifier@, poseidon_hasher@, token_contract@));
    }

    /// Records a deposit: the note `(commitment, depositor, encrypted_amount)`
    /// is stored under `commitment`. The contract aborts with "commitment
    /// already exists" where the commitment is stored already. The
    /// depositor's authorisation is checked by the host.
    pub fn deposit(&mut self, depositor: Address, commitment: [u8; 32], encrypted_amount: [u8; 32])
        requires
            old(self).wf(),
            !spec_commitment_exists(old(self)@, commitment@),
        ensures
            final(self).wf(),
            final(self)@ == spec_deposit(
                old(self)@,
                DepositNoteView {
                    commitment: commitment@,
                    depositor: depositor@,
                    encrypted_amount: encrypted_amount@,
                },
            ),
    {
        let note = DepositNote { commitment, depositor, encrypted_amount };
        self.commitments.set(commitment, note);
        assert(self@ =~= spec_deposit(old(self)@, note@));
    }

    /// Whether a verifier contract is stored, so that withdrawals can run.
    pub fn is_initialized(&self) -> (r: bool)
        ensures
            r == (self@.bn254_verifier is Some),
    {
        self.bn254_verifier.is_some()
    }

    /// The first step of a withdrawal: the call to make to the verifier
    /// contract. The contract aborts with "nullifier already spent" where
    /// the nullifier is spent, then with "not initialized" where no verifier
    /// contract is stored.
    pub fn withdraw_request(
        &self,
        nullifier: [u8; 32],
        proof_a: [u8; 64],
        proof_b: [u8; 128],
        proof_c: [u8; 64],
        public_inputs: Vec<[u8; 32]>,
        circuit_id: [u8; 32],
    ) -> (call: VerifyCall)
        requires
            self.wf(),
            withdraw_allowed(self@, nullifier@),
        ensures
            call@ == spec_withdraw_request(
                self@,
                circuit_id@,
                Groth16Proof { a: proof_a, b: proof_b, c: proof_c },
                public_inputs@,
            ),
            call.proof == (Groth16Proof { a: proof_a, b: proof_b, c: proof_c }),
            call.circuit_id == circuit_id,
            call.public_inputs@ == public_inputs@,
            Some(call.verifier@) == self@.bn254_verifier,
    {
        let verifier = match &self.bn254_verifier {
            Some(v) => v.clone(),
            None => {
                proof {
                    assert(false);
                }
                Address { strkey: Vec::new() }
            },
        };
        VerifyCall {
            verifier,
            circuit_id,
            proof: Groth16Proof { a: proof_a, b: proof_b, c: proof_c },
            public_inputs,
        }
    }

    /// Completes a withdrawal that the verifier accepted (`proof_valid`):
    /// the nullifier is marked spent. The contract aborts with "nullifier
    /// already spent", "not initialized" or, where the verifier rejected the
    /// proof, "invalid proof".
    pub fn withdraw(&mut self, nullifier: [u8; 32], proof_valid: bool)
        requires
            old(self).wf(),
            withdraw_allowed(old(self)@, nullifier@),
            proof_valid,
        ensures
            final(self).wf(),
            final(self)@ == spec_withdraw(old(self)@, nullifier@),
    {
        self.nullifiers.set(nullifier, true);
        assert(self@ =~= spec_withdraw(old(self)@, nullifier@));
    }

    /// Where `deposit` would abort for `commitment`, or `Ok` where it
    /// records the note.
    pub fn check_deposit(&self, commitment: &[u8; 32]) -> (r: Result<(), TransferError>)
        requires
            self.wf(),
        ensures
            r == deposit_outcome(self@, commitment@),
            r is Ok <==> !spec_commitment_exists(self@, commitment@),
    {
        if self.commitments.has(commitment) {
            Err(TransferError::CommitmentAlreadyExists)
        } else {
            Ok(())
        }
    }

    /// Where a withdrawal with `nullifier` would abort before it calls the
    /// verifier, or `Ok` where it makes the call.
    pub fn check_withdraw(&self, nullifier: &[u8; 32]) -> (r: Result<(), TransferError>)
        requires
            self.wf(),
        ensures
            r == withdraw_outcome(self@, nullifier@),
            r is Ok <==> withdraw_allowed(self@, nullifier@),
    {
        if self.nullifiers.has(nullifier) {
            Err(TransferError::NullifierAlreadySpent)
        } else if self.bn254_verifier.is_none() {
            Err(TransferError::NotInitialized)
        } else {
            Ok(())
        }
    }

    /// What a withdrawal does with the verifier's answer `valid`: it goes
    /// on where the proof was accepted and aborts with "invalid proof"
    /// where it was rejected.
    pub fn check_proof(valid: bool) -> (r: Result<(), TransferError>)
        ensures
            r == (if valid { Ok(()) } else { Err(TransferError::InvalidProof) }),
    {
        if valid {
            Ok(())
        } else {
            Err(TransferError::InvalidProof)
        }
    }

    /// Whether `nullifier` has been spent.
    pub fn is_spent(&self, nullifier: [u8; 32]) -> (r: bool)
        requires
            self.wf(),
        ensures
            r == spec_is_spent(self@, nullifier@),
    {
        self.nullifiers.has(&nullifier)
    }

    /// Whether `commitment` is stored.
    pub fn commitment_exists(&self, commitment: [u8; 32]) -> (r: bool)
        requires
            self.wf(),
        ensures
            r == spec_commitment_exists(self@, commitment@),
    {
        self.commitments.has(&commitment)
    }
}

/// A deposit stores its note under its commitment and changes nothing else;
/// it is refused exactly where the commitment is stored already.
pub proof fn lemma_deposit_effect(s: PrivateTransferView, note: DepositNoteView)
    ensures
        spec_deposit(s, note).commitments == s.commitments.insert(note.commitment, note),
        spec_deposit(s, note).nullifiers == s.nullifiers,
        spec_deposit(s, note).admin == s.admin,
        spec_deposit(s, note).bn254_verifier == s.bn254_verifier,
        spec_deposit(s, note).poseidon_hasher == s.poseidon_hasher,
        spec_deposit(s, note).token_contract == s.token_contract,
        deposit_outcome(s, note.commitment) is Ok <==> !s.commitments.dom().contains(note.commitment),
        deposit_outcome(s, note.commitment) is Err ==> deposit_outcome(s, note.commitment) == Err::<
            (),
            TransferError,
        >(TransferError::CommitmentAlreadyExists),
{
}

/// An accepted withdrawal marks its nullifier spent and changes nothing
/// else; before the verifier is called it is refused for a spent nullifier
/// first, then for a missing verifier contract.
pub proof fn lemma_withdraw_effect(s: PrivateTransferView, nullifier: Seq<u8>)
    ensures
        spec_withdraw(s, nullifier).nullifiers == s.nullifiers.insert(nullifier, true),
        spec_withdraw(s, nullifier).commitments == s.commitments,
        spec_withdraw(s, nullifier).admin == s.admin,
        spec_withdraw(s, nullifier).bn254_verifier == s.bn254_verifier,
        spec_withdraw(s, nullifier).poseidon_hasher == s.poseidon_hasher,
        spec_withdraw(s, nullifier).token_contract == s.token_contract,
        s.nullifiers.dom().contains(nullifier) ==> withdraw_outcome(s, nullifier) == Err::<(), TransferError>(
            TransferError::NullifierAlreadySpent,
        ),
        !s.nullifiers.dom().contains(nullifier) && s.bn254_verifier is None ==> withdraw_outcome(s, nullifier)
            == Err::<(), TransferError>(TransferError::NotInitialized),
        withdraw_outcome(s, nullifier) is Ok <==> (!s.nullifiers.dom().contains(nullifier)
            && s.bn254_verifier is Some),
{
}

/// `initialize` stores the four addresses given and keeps the commitments
/// and nullifiers.
pub proof fn lemma_initialize_effect(
    s: PrivateTransferView,
    admin: Seq<u8>,
    bn254_verifier: Seq<u8>,
    poseidon_hasher: Seq<u8>,
    token_contract: Seq<u8>,
)
    ensures
        spec_initialize(s, admin, bn254_verifier, poseidon_hasher, token_contract).admin == Some(admin),
        spec_initialize(s, admin, bn254_verifier, poseidon_hasher, token_contract).bn254_verifier == Some(
            bn254_verifier,
        ),
        spec_initialize(s, admin, bn254_verifier, poseidon_hasher, token_contract).poseidon_hasher == Some(
            poseidon_hasher,
        ),
        spec_initialize(s, admin, bn254_verifier, poseidon_hasher, token_contract).token_contract == Some(
            token_contract,
        ),
        spec_initialize(s, admin, bn254_verifier, poseidon_hasher, token_contract).commitments == s.commitments,
        spec_initialize(s, admin, bn254_verifier, poseidon_hasher, token_contract).nullifiers == s.nullifiers,
{
}

/// A withdrawal hands the verifier the caller's proof, circuit and public
/// inputs unchanged, addressed to the stored verifier contract.
pub proof fn lemma_withdraw_request_forwards(
    s: PrivateTransferView,
    circuit_id: Seq<u8>,
    proof: Groth16Proof,
    public_inputs: Seq<[u8; 32]>,
)
    requires
        s.bn254_verifier is Some,
    ensures
        spec_withdraw_request(s, circuit_id, proof, public_inputs).proof == proof,
        spec_withdraw_request(s, circuit_id, proof, public_inputs).circuit_id == circuit_id,
        spec_withdraw_request(s, circuit_id, proof, public_inputs).public_inputs == public_inputs,
        Some(spec_withdraw_request(s, circuit_id, proof, public_inputs).verifier) == s.bn254_verifier,
{
}

/// A call that may change the transfer contract's storage.
pub enum TransferOp {
    Initialize { admin: Seq<u8>, bn254_verifier: Seq<u8>, poseidon_hasher: Seq<u8>, token_contract: Seq<u8> },
    Deposit { note: DepositNoteView },
    Withdraw { nullifier: Seq<u8>, proof_valid: bool },
}

/// The storage after the call `op`: a call that aborts (a stored
/// commitment, a spent nullifier, no verifier, a rejected proof) leaves it
/// as it was.
pub open spec fn spec_apply(s: PrivateTransferView, op: TransferOp) -> PrivateTransferView {
    match op {
        TransferOp::Initialize { admin, bn254_verifier, poseidon_hasher, token_contract } => spec_initialize(
            s,
            admin,
            bn254_verifier,
            poseidon_hasher,
            token_contract,
        ),
        TransferOp::Deposit { note } => if spec_commitment_exists(s, note.commitment) {
            s
        } else {
            spec_deposit(s, note)
        },
        TransferOp::Withdraw { nullifier, proof_valid } => if withdraw_allowed(s, nullifier) && proof_valid {
            spec_withdraw(s, nullifier)
        } else {
            s
        },
    }
}

/// The storage after the calls `ops`, in order.
pub open spec fn spec_run(s: PrivateTransferView, ops: Seq<TransferOp>) -> PrivateTransferView
    decreases ops.len(),
{
    if ops.len() == 0 {
        s
    } else {
        spec_apply(spec_run(s, ops.drop_last()), ops.last())
    }
}

/// A nullifier is spent at most once: after a withdrawal with `nullifier`
/// succeeds, the nullifier is spent, every later withdrawal with it aborts,
/// and the storage stays as it is, whatever the verifier answers.
pub proof fn lemma_no_double_spend(s: PrivateTransferView, nullifier: Seq<u8>, second_valid: bool)
    requires
        withdraw_allowed(s, nullifier),
    ensures
        spec_is_spent(spec_withdraw(s, nullifier), nullifier),
        !withdraw_allowed(spec_withdraw(s, nullifier), nullifier),
        spec_apply(spec_withdraw(s, nullifier), TransferOp::Withdraw { nullifier, proof_valid: second_valid })
            == spec_withdraw(s, nullifier),
{
}

/// A deposit stores its commitment with its note, and a second deposit of
/// the same commitment aborts and leaves the storage, the first note
/// included, as it is.
pub proof fn lemma_commitment_stored_once(s: PrivateTransferView, note: DepositNoteView, other: DepositNoteView)
    requires
        !spec_commitment_exists(s, note.commitment),
        other.commitment == note.commitment,
    ensures
        spec_commitment_exists(spec_deposit(s, note), note.commitment),
        spec_deposit(s, note).commitments[note.commitment] == note,
        spec_apply(spec_deposit(s, note), TransferOp::Deposit { note: other }) == spec_deposit(s, note),
{
}

/// Storage only grows: no call removes a stored commitment or unspends a
/// nullifier. A deposit leaves the nullifiers as they were, a withdrawal
/// the commitments, and `initialize` both.
pub proof fn lemma_storage_only_grows(s: PrivateTransferView, op: TransferOp, key: Seq<u8>)
    ensures
        spec_commitment_exists(s, key) ==> spec_commitment_exists(spec_apply(s, op), key),
        spec_is_spent(s, key) ==> spec_is_spent(spec_apply(s, op), key),
        op is Deposit || op is Initialize ==> spec_apply(s, op).nullifiers == s.nullifiers,
        op is Withdraw || op is Initialize ==> spec_apply(s, op).commitments == s.commitments,
{
}

/// Through any sequence of `initialize`, `deposit` and `withdraw` calls,
/// aborted or not, a spent nullifier stays spent, and a stored commitment
/// stays stored with the same note.
pub proof fn lemma_storage_persists(s: PrivateTransferView, ops: Seq<TransferOp>, key: Seq<u8>)
    ensures
        spec_is_spent(s, key) ==> spec_is_spent(spec_run(s, ops), key),
        spec_commitment_exists(s, key) ==> spec_commitment_exists(spec_run(s, ops), key)
            && spec_run(s, ops).commitments[key] == s.commitments[key],
    decreases ops.len(),
{
    if ops.len() > 0 {
        lemma_storage_persists(s, ops.drop_last(), key);
    }
}

} // verus!
