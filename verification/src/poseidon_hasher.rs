//! PoseidonHasher: the Poseidon hash over the BN254 scalar field of one to
//! four field elements, and the commitment and nullifier constructions built
//! on it.
//!
//! The hash is soroban-poseidon's `poseidon_hash` for BN254, whose sponge and
//! parameters are circomlib's: the state is `[0, inputs..]` of width
//! `inputs.len() + 1`, and the digest is the first state element after the
//! Poseidon permutation, which the Soroban host computes. Every input must be
//! a field element (below the scalar modulus `r`); the hash aborts on
//! another.

use vstd::prelude::*;

use soroban_sdk::crypto::bn254::Bn254Fr;
use soroban_sdk::{Bytes, Env, U256};

use crate::field::{be_nat, fr_modulus, fr_modulus_bytes, is_scalar, is_scalar_field_element, lemma_pow256_positive, pow256};

verus! {

/// Most inputs that one call hashes.
pub const MAX_INPUTS: usize = 4;

/// Poseidon parameter sets the hasher names.
pub enum HashMode {
    /// Standard Poseidon-128 (2 inputs)
    Poseidon128,
    /// Poseidon-256 (4 inputs)
    Poseidon256,
}

/// Why the hasher contract aborts.
#[derive(Debug, PartialEq, Eq, Structural)]
pub enum HashError {
    /// The request held no input, or more than four.
    UnsupportedInputCount,
    /// An input is not below the scalar field modulus.
    InputExceedsFieldModulus,
}

impl HashError {
    /// The message the contract aborts with.
    pub fn message(&self) -> (m: &'static str)
        ensures
            m@ == match self {
                HashError::UnsupportedInputCount => "Poseidon supports 1-4 inputs"@,
                HashError::InputExceedsFieldModulus => "input exceeds field modulus"@,
            },
    {
        match self {
            HashError::UnsupportedInputCount => "Poseidon supports 1-4 inputs",
            HashError::InputExceedsFieldModulus => "input exceeds field modulus",
        }
    }
}

/// The hash utility contract; it keeps no state.
pub struct PoseidonHasher;

/// A request is served when it holds one to four inputs.
pub open spec fn supported_input_count(n: int) -> bool {
    1 <= n <= MAX_INPUTS
}

/// A request is hashed when it holds one to four inputs and each is a
/// field element.
pub open spec fn hashable(inputs: Seq<[u8; 32]>) -> bool {
    &&& supported_input_count(inputs.len() as int)
    &&& forall|i: int| 0 <= i < inputs.len() ==> is_scalar(#[trigger] inputs[i]@)
}

/// The bytes of each input, in order.
pub open spec fn byte_views(inputs: Seq<[u8; 32]>) -> Seq<Seq<u8>> {
    inputs.map_values(|a: [u8; 32]| a@)
}

/// The Poseidon hash over the BN254 scalar field of the field elements
/// `inputs` (32 bytes each, big-endian), as 32 big-endian bytes: what
/// soroban-poseidon's `poseidon_hash` returns for them.
pub uninterp spec fn poseidon_bn254(inputs: Seq<Seq<u8>>) -> Seq<u8>;

/// The spent flag of a nullifier: the field element 1, big-endian.
pub open spec fn spent_flag() -> Seq<u8> {
    Seq::new(32, |j: int| if j == 31 { 1u8 } else { 0u8 })
}

/// The commitment to a note: Poseidon(secret, nonce).
pub open spec fn spec_commit(secret: Seq<u8>, nonce: Seq<u8>) -> Seq<u8> {
    poseidon_bn254(seq![secret, nonce])
}

/// The nullifier of a note: Poseidon(secret, nonce, 1).
pub open spec fn spec_nullifier(secret: Seq<u8>, nonce: Seq<u8>) -> Seq<u8> {
    poseidon_bn254(seq![secret, nonce, spent_flag()])
}

/// `soroban_poseidon::poseidon_hash::<2, Bn254Fr>` on one field element:
/// the contract claims its result is `poseidon_bn254` of the input and a
/// field element (the first element of the host's permutation state). The
/// function aborts on an input that is not below `r`.
#[verifier::external_body]
fn poseidon_hash_1(env: &Env, inputs: &Vec<[u8; 32]>) -> (digest: [u8; 32])
    requires
        inputs@.len() == 1,
        forall|i: int| 0 <= i < inputs@.len() ==> is_scalar(#[trigger] inputs@[i]@),
    ensures
        digest@ == poseidon_bn254(byte_views(inputs@)),
        is_scalar(digest@),
{
    let mut v = soroban_sdk::Vec::new(env);
    for x in inputs.iter() {
        v.push_back(U256::from_be_bytes(env, &Bytes::from_array(env, x)));
    }
    let mut digest = [0u8; 32];
    soroban_poseidon::poseidon_hash::<2, Bn254Fr>(env, &v).to_be_bytes().copy_into_slice(&mut digest);
    digest
}

/// `soroban_poseidon::poseidon_hash::<3, Bn254Fr>` on two field elements:
/// the contract claims its result is `poseidon_bn254` of the inputs and a
/// field element (the first element of the host's permutation state). The
/// function aborts on an input that is not below `r`.
#[verifier::external_body]
fn poseidon_hash_2(env: &Env, inputs: &Vec<[u8; 32]>) -> (digest: [u8; 32])
    requires
        inputs@.len() == 2,
        forall|i: int| 0 <= i < inputs@.len() ==> is_scalar(#[trigger] inputs@[i]@),
    ensures
        digest@ == poseidon_bn254(byte_views(inputs@)),
        is_scalar(digest@),
{
    let mut v = soroban_sdk::Vec::new(env);
    for x in inputs.iter() {
        v.push_back(U256::from_be_bytes(env, &Bytes::from_array(env, x)));
    }
    let mut digest = [0u8; 32];
    soroban_poseidon::poseidon_hash::<3, Bn254Fr>(env, &v).to_be_bytes().copy_into_slice(&mut digest);
    digest
}

/// `soroban_poseidon::poseidon_hash::<4, Bn254Fr>` on three field elements:
/// the contract claims its result is `poseidon_bn254` of the inputs and a
/// field element (the first element of the host's permutation state). The
/// function aborts on an input that is not below `r`.
#[verifier::external_body]
fn poseidon_hash_3(env: &Env, inputs: &Vec<[u8; 32]>) -> (digest: [u8; 32])
    requires
        inputs@.len() == 3,
        forall|i: int| 0 <= i < inputs@.len() ==> is_scalar(#[trigger] inputs@[i]@),
    ensures
        digest@ == poseidon_bn254(byte_views(inputs@)),
        is_scalar(digest@),
{
    let mut v = soroban_sdk::Vec::new(env);
    for x in inputs.iter() {
        v.push_back(U256::from_be_bytes(env, &Bytes::from_array(env, x)));
    }
    let mut digest = [0u8; 32];
    soroban_poseidon::poseidon_hash::<4, Bn254Fr>(env, &v).to_be_bytes().copy_into_slice(&mut digest);
    digest
}

/// `soroban_poseidon::poseidon_hash::<5, Bn254Fr>` on four field elements:
/// the contract claims its result is `poseidon_bn254` of the inputs and a
/// field element (the first element of the host's permutation state). The
/// function aborts on an input that is not below `r`.
#[verifier::external_body]
fn poseidon_hash_4(env: &Env, inputs: &Vec<[u8; 32]>) -> (digest: [u8; 32])
    requires
        inputs@.len() == 4,
        forall|i: int| 0 <= i < inputs@.len() ==> is_scalar(#[trigger] inputs@[i]@),
    ensures
        digest@ == poseidon_bn254(byte_views(inputs@)),
        is_scalar(digest@),
{
    let mut v = soroban_sdk::Vec::new(env);
    for x in inputs.iter() {
        v.push_back(U256::from_be_bytes(env, &Bytes::from_array(env, x)));
    }
    let mut digest = [0u8; 32];
    soroban_poseidon::poseidon_hash::<5, Bn254Fr>(env, &v).to_be_bytes().copy_into_slice(&mut digest);
    digest
}

/// Where `hash` aborts, in the order it checks: a number of inputs other
/// than one to four, then an input that is not below `r`.
pub open spec fn hash_outcome(inputs: Seq<[u8; 32]>) -> Result<(), HashError> {
    if !supported_input_count(inputs.len() as int) {
        Err(HashError::UnsupportedInputCount)
    } else if !(forall|i: int| 0 <= i < inputs.len() ==> is_scalar(#[trigger] inputs[i]@)) {
        Err(HashError::InputExceedsFieldModulus)
    } else {
        Ok(())
    }
}

impl PoseidonHasher {
    /// Where `hash` would abort on `inputs`, or `Ok` where it hashes them.
    pub fn check_inputs(inputs: &Vec<[u8; 32]>) -> (r: Result<(), HashError>)
        ensures
            r == hash_outcome(inputs@),
            r is Ok <==> hashable(inputs@),
            r is Ok <==> (1 <= inputs@.len() <= 4 && forall|i: int|
                0 <= i < inputs@.len() ==> be_nat(#[trigger] inputs@[i]@) < fr_modulus()),
    {
        if inputs.len() < 1 || inputs.len() > MAX_INPUTS {
            return Err(HashError::UnsupportedInputCount);
        }
        let mut i: usize = 0;
        while i < inputs.len()
            invariant
                i <= inputs@.len(),
                supported_input_count(inputs@.len() as int),
                forall|k: int| 0 <= k < i ==> is_scalar(#[trigger] inputs@[k]@),
            decreases inputs@.len() - i,
        {
            if !is_scalar_field_element(&inputs[i]) {
                assert(!is_scalar(inputs@[i as int]@));
                return Err(HashError::InputExceedsFieldModulus);
            }
            i = i + 1;
        }
        Ok(())
    }

    /// Hashes one to four field elements with Poseidon over the BN254
    /// scalar field. The contract aborts with "Poseidon supports 1-4 inputs"
    /// on another number of inputs and with "input exceeds field modulus" on
    /// an input that is not below `r`.
    pub fn hash(env: &Env, inputs: &Vec<[u8; 32]>) -> (digest: [u8; 32])
        requires
            hashable(inputs@),
        ensures
            digest@ == poseidon_bn254(byte_views(inputs@)),
            is_scalar(digest@),
    {
        if inputs.len() == 1 {
            poseidon_hash_1(env, inputs)
        } else if inputs.len() == 2 {
            poseidon_hash_2(env, inputs)
        } else if inputs.len() == 3 {
            poseidon_hash_3(env, inputs)
        } else {
            poseidon_hash_4(env, inputs)
        }
    }

    /// The commitment to a note: Poseidon(secret, nonce).
    pub fn commit(env: &Env, secret: [u8; 32], nonce: [u8; 32]) -> (c: [u8; 32])
        requires
            is_scalar(secret@),
            is_scalar(nonce@),
        ensures
            c@ == spec_commit(secret@, nonce@),
            c@ == poseidon_bn254(seq![secret@, nonce@]),
            is_scalar(c@),
    {
        let inputs: Vec<[u8; 32]> = vec![secret, nonce];
        assert(byte_views(inputs@) =~= seq![secret@, nonce@]);
        Self::hash(env, &inputs)
    }

    /// The nullifier of a note: Poseidon(secret, nonce, 1).
    pub fn nullifier(env: &Env, secret: [u8; 32], nonce: [u8; 32]) -> (n: [u8; 32])
        requires
            is_scalar(secret@),
            is_scalar(nonce@),
        ensures
            n@ == spec_nullifier(secret@, nonce@),
            n@ == poseidon_bn254(seq![secret@, nonce@, spent_flag()]),
            is_scalar(n@),
    {
        let mut flag: [u8; 32] = [0u8; 32];
        flag[31] = 1;
        assert(flag@ =~= spent_flag());
        proof {
            lemma_spent_flag_is_scalar();
        }
        let inputs: Vec<[u8; 32]> = vec![secret, nonce, flag];
        assert(byte_views(inputs@) =~= seq![secret@, nonce@, spent_flag()]);
        Self::hash(env, &inputs)
    }
}

/// The digest is a function of the inputs alone: two requests with the same
/// inputs hash to the same digest, whatever host computes it.
pub proof fn lemma_hash_depends_on_inputs_only(a: Seq<[u8; 32]>, b: Seq<[u8; 32]>)
    requires
        byte_views(a) == byte_views(b),
    ensures
        poseidon_bn254(byte_views(a)) == poseidon_bn254(byte_views(b)),
{
}

/// A request is hashed exactly when it holds one, two, three or four
/// inputs and each is below `r`.
pub proof fn lemma_hashable_counts(inputs: Seq<[u8; 32]>)
    ensures
        hashable(inputs) <==> (1 <= inputs.len() <= 4 && forall|i: int|
            0 <= i < inputs.len() ==> be_nat(#[trigger] inputs[i]@) < fr_modulus()),
        hash_outcome(inputs) is Ok <==> hashable(inputs),
        !(1 <= inputs.len() <= 4) ==> hash_outcome(inputs) == Err::<(), HashError>(HashError::UnsupportedInputCount),
{
}

/// The hash reads each input as given, in order: `byte_views` is the
/// sequence of the inputs' bytes.
pub proof fn lemma_byte_views(inputs: Seq<[u8; 32]>)
    ensures
        byte_views(inputs).len() == inputs.len(),
        forall|i: int| 0 <= i < inputs.len() ==> #[trigger] byte_views(inputs)[i] == inputs[i]@,
{
}

/// The commitment to a note is the hash of its secret and nonce, in that
/// order and as given.
pub proof fn lemma_commit_is_hash_of_secret_then_nonce(secret: [u8; 32], nonce: [u8; 32])
    ensures
        spec_commit(secret@, nonce@) == poseidon_bn254(byte_views(seq![secret, nonce])),
        spec_commit(secret@, nonce@) == poseidon_bn254(seq![secret@, nonce@]),
{
    assert(byte_views(seq![secret, nonce]) =~= seq![secret@, nonce@]);
}

/// The nullifier of a note is the hash of its secret, its nonce and the
/// number 1, in that order and as given.
pub proof fn lemma_nullifier_is_hash_with_flag(secret: [u8; 32], nonce: [u8; 32])
    ensures
        spec_nullifier(secret@, nonce@) == poseidon_bn254(seq![secret@, nonce@, spent_flag()]),
        spent_flag().len() == 32,
        be_nat(spent_flag()) == 1,
{
    lemma_spent_flag_value();
}

/// The spent flag is the number 1 in 32 bytes.
pub proof fn lemma_spent_flag_value()
    ensures
        spent_flag().len() == 32,
        be_nat(spent_flag()) == 1,
{
    let f = spent_flag();
    lemma_zero_prefix(f, 0);
    assert(f.subrange(0, 32) =~= f);
    let last = f.subrange(31, 32);
    assert(last[0] == f[31]);
    assert(last.drop_first() =~= Seq::<u8>::empty());
    assert(be_nat(last.drop_first()) == 0);
    assert(pow256(0) == 1);
}

/// The spent flag, the number 1, is a field element.
pub proof fn lemma_spent_flag_is_scalar()
    ensures
        is_scalar(spent_flag()),
{
    let f = spent_flag();
    lemma_zero_prefix(f, 0);
    assert(f.subrange(0, 32) =~= f);
    let last = f.subrange(31, 32);
    assert(last[0] == f[31]);
    assert(f[31] == 1u8);
    assert(last.drop_first() =~= Seq::<u8>::empty());
    assert(be_nat(last.drop_first()) == 0);
    assert(pow256(0) == 1);
    assert(be_nat(last) == 1);
    let m = fr_modulus_bytes();
    lemma_pow256_positive(31);
    assert(be_nat(m) >= m[0] * pow256(31)) by {
        assert(m.len() == 32);
    }
    assert(m[0] * pow256(31) >= 48) by (nonlinear_arith)
        requires
            m[0] == 0x30,
            pow256(31) >= 1,
    ;
}

/// Leading zero bytes add nothing: the suffix of `s` from `k` encodes the
/// same number as the suffix from 31.
proof fn lemma_zero_prefix(s: Seq<u8>, k: int)
    requires
        s.len() == 32,
        0 <= k <= 31,
        forall|i: int| k <= i < 31 ==> s[i] == 0,
    ensures
        be_nat(s.subrange(k, 32)) == be_nat(s.subrange(31, 32)),
    decreases 31 - k,
{
    if k < 31 {
        lemma_zero_prefix(s, k + 1);
        let t = s.subrange(k, 32);
        assert(t.drop_first() =~= s.subrange(k + 1, 32));
        assert(t[0] == 0);
    }
}

} // verus!
