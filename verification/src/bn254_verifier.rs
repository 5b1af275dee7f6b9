//! BN254Verifier: a registry of Groth16 verifying keys, one per circuit, and
//! verification of proofs against them.
//!
//! Verification checks that a key is registered for the circuit and that the
//! number of public inputs matches it, forms
//! `L = IC[0] + sum(IC[i + 1] * input[i])` with the host's `g1_msm` and
//! `g1_add`, and answers the host's multi-pairing check of the Groth16
//! equation `e(A, B) * e(-alpha, beta) * e(-L, gamma) * e(-C, delta) == 1`.
//! The host traps on a point that is not a valid encoding; `check_verify`
//! tells, before the curve work, where the contract would abort.

use vstd::prelude::*;

use soroban_sdk::crypto::bn254::{Bn254Fr, Bn254G1Affine, Bn254G2Affine};
use soroban_sdk::{BytesN, Env};

use crate::field::{
    be_nat, fp_modulus, g1_coordinates_in_field, g1_is_negatable, g1_negatable, g1_negate, g1_neg, g1_on_curve,
    g1_valid, g1_x, g1_y, g2_valid, is_g1_negation, lemma_g1_neg_exists,
};
use crate::store::PersistentMap;

verus! {

/// A Groth16 proof: points A and C in G1, B in G2.
#[derive(Clone, Copy)]
pub struct Groth16Proof {
    /// A point in G1 (32 bytes x, 32 bytes y)
    pub a: [u8; 64],
    /// B point in G2 (two field elements per coordinate)
    pub b: [u8; 128],
    /// C point in G1
    pub c: [u8; 64],
}

/// Verification key for one circuit.
pub struct VerifyingKey {
    pub alpha: [u8; 64],
    pub beta: [u8; 128],
    pub gamma: [u8; 128],
    pub delta: [u8; 128],
    /// IC points for public inputs (one per public input, plus one)
    pub ic: Vec<[u8; 64]>,
}

/// The bytes of a verifying key.
pub struct VerifyingKeyView {
    pub alpha: Seq<u8>,
    pub beta: Seq<u8>,
    pub gamma: Seq<u8>,
    pub delta: Seq<u8>,
    pub ic: Seq<Seq<u8>>,
}

impl View for VerifyingKey {
    type V = VerifyingKeyView;

    open spec fn view(&self) -> VerifyingKeyView {
        VerifyingKeyView {
            alpha: self.alpha@,
            beta: self.beta@,
            gamma: self.gamma@,
            delta: self.delta@,
            ic: self.ic@.map_values(|p: [u8; 64]| p@),
        }
    }
}

impl Clone for VerifyingKey {
    fn clone(&self) -> (res: Self)
        ensures
            res@ == self@,
    {
        let mut ic: Vec<[u8; 64]> = Vec::new();
        let mut i: usize = 0;
        while i < self.ic.len()
            invariant
                i <= self.ic@.len(),
                ic@ == self.ic@.take(i as int),
            decreases self.ic@.len() - i,
        {
            ic.push(self.ic[i]);
            i = i + 1;
            assert(ic@ =~= self.ic@.take(i as int));
        }
        assert(ic@ =~= self.ic@);
        VerifyingKey {
            alpha: self.alpha,
            beta: self.beta,
            gamma: self.gamma,
            delta: self.delta,
            ic,
        }
    }
}

/// Storage keys of the verifier contract.
pub enum Key {
    /// Keyed by circuit ID (hash of circuit)
    VerifyingKey([u8; 32]),
}

/// Why the verifier contract aborts.
#[derive(Debug, PartialEq, Eq, Structural)]
pub enum VerifierError {
    /// `verify` named a circuit that has no registered key.
    VerifyingKeyNotRegistered,
    /// The number of public inputs is not one less than the number of IC points.
    WrongInputCount,
    /// `get_vk` named a circuit that has no registered key.
    NotFound,
    /// A G1 point to negate has a `Y` coordinate that is not below the
    /// field modulus: the SDK's negation reads `Y` as a `Bn254Fp`, whose
    /// construction aborts with "Bn254: Invalid Fp" there.
    InvalidFieldElement,
    /// The host rejects a G1 point: a coordinate not below the field
    /// modulus, or a point off the curve.
    InvalidPoint,
}

impl VerifierError {
    /// The message the contract aborts with.
    pub fn message(&self) -> (m: &'static str)
        ensures
            m@ == match self {
                VerifierError::VerifyingKeyNotRegistered => "verifying key not registered"@,
                VerifierError::WrongInputCount => "wrong number of public inputs"@,
                VerifierError::NotFound => "not found"@,
                VerifierError::InvalidFieldElement => "Bn254: Invalid Fp"@,
                VerifierError::InvalidPoint => "bn254: invalid G1 point"@,
            },
    {
        match self {
            VerifierError::VerifyingKeyNotRegistered => "verifying key not registered",
            VerifierError::WrongInputCount => "wrong number of public inputs",
            VerifierError::NotFound => "not found",
            VerifierError::InvalidFieldElement => "Bn254: Invalid Fp",
            VerifierError::InvalidPoint => "bn254: invalid G1 point",
        }
    }
}

/// The bytes of each public input, in order.
pub open spec fn input_views(inputs: Seq<[u8; 32]>) -> Seq<Seq<u8>> {
    inputs.map_values(|x: [u8; 32]| x@)
}

/// The bytes of each G1 point, in order.
pub open spec fn g1_views(points: Seq<[u8; 64]>) -> Seq<Seq<u8>> {
    points.map_values(|p: [u8; 64]| p@)
}

/// The bytes of each G2 point, in order.
pub open spec fn g2_views(points: Seq<[u8; 128]>) -> Seq<Seq<u8>> {
    points.map_values(|p: [u8; 128]| p@)
}

/// The sum of the G1 points `p` and `q`, in the host's encoding: what the
/// host's `bn254_g1_add` returns for them.
pub uninterp spec fn bn254_g1_add(p: Seq<u8>, q: Seq<u8>) -> Seq<u8>;

/// `sum(scalars[i] * points[i])` in G1, each scalar a 32-byte big-endian
/// number taken modulo `r`: what the host's `bn254_g1_msm` returns.
pub uninterp spec fn bn254_g1_msm(points: Seq<Seq<u8>>, scalars: Seq<Seq<u8>>) -> Seq<u8>;

/// Whether the product of the pairings `e(g1[i], g2[i])` is 1: what the
/// host's `bn254_multi_pairing_check` returns.
pub uninterp spec fn bn254_pairing(g1: Seq<Seq<u8>>, g2: Seq<Seq<u8>>) -> bool;

/// `Bn254::g1_is_on_curve` of soroban-sdk, the host's
/// `bn254_g1_is_on_curve`: the contract claims it tells whether `point` is
/// the point at infinity (64 zero bytes) or a point on the curve. The host
/// traps where a coordinate is not below `p`.
#[verifier::external_body]
fn host_g1_is_on_curve(env: &Env, point: &[u8; 64]) -> (r: bool)
    requires
        be_nat(g1_x(point@)) < fp_modulus(),
        be_nat(g1_y(point@)) < fp_modulus(),
    ensures
        r == g1_on_curve(point@),
{
    env.crypto().bn254().g1_is_on_curve(&Bn254G1Affine::from_array(env, point))
}

/// `Bn254::g1_add` of soroban-sdk, the host's `bn254_g1_add`: the contract
/// claims its result is `bn254_g1_add` of the two points and is itself a
/// valid G1 encoding (the host serializes a point of the curve). The host
/// traps on an input that is not a valid G1 encoding.
#[verifier::external_body]
fn host_g1_add(env: &Env, p: &[u8; 64], q: &[u8; 64]) -> (r: [u8; 64])
    requires
        g1_valid(p@),
        g1_valid(q@),
    ensures
        r@ == bn254_g1_add(p@, q@),
        g1_valid(r@),
{
    let bn = env.crypto().bn254();
    bn.g1_add(&Bn254G1Affine::from_array(env, p), &Bn254G1Affine::from_array(env, q)).to_array()
}

/// `Bn254::g1_msm` of soroban-sdk, the host's `bn254_g1_msm`, with each
/// scalar made a `Bn254Fr` by `Bn254Fr::from_bytes` (which reduces it modulo
/// `r`): the contract claims its result is `bn254_g1_msm` of the points and
/// scalars and is a valid G1 encoding. The host traps where the two vectors
/// differ in length or are empty, or on a point that is not a valid G1
/// encoding.
#[verifier::external_body]
fn host_g1_msm(env: &Env, points: &Vec<[u8; 64]>, scalars: &Vec<[u8; 32]>) -> (r: [u8; 64])
    requires
        points@.len() == scalars@.len(),
        points@.len() > 0,
        forall|i: int| 0 <= i < points@.len() ==> g1_valid(#[trigger] points@[i]@),
    ensures
        r@ == bn254_g1_msm(g1_views(points@), input_views(scalars@)),
        g1_valid(r@),
{
    let mut vp = soroban_sdk::Vec::new(env);
    for p in points.iter() {
        vp.push_back(Bn254G1Affine::from_array(env, p));
    }
    let mut vs = soroban_sdk::Vec::new(env);
    for x in scalars.iter() {
        vs.push_back(Bn254Fr::from_bytes(BytesN::from_array(env, x)));
    }
    env.crypto().bn254().g1_msm(vp, vs).to_array()
}

/// `Bn254::pairing_check` of soroban-sdk, the host's
/// `bn254_multi_pairing_check`: the contract claims its result is
/// `bn254_pairing` of the two vectors. The host traps where they differ in
/// length or are empty, or on a point that is not a valid encoding.
#[verifier::external_body]
fn host_pairing_check(env: &Env, g1: &Vec<[u8; 64]>, g2: &Vec<[u8; 128]>) -> (r: bool)
    requires
        g1@.len() == g2@.len(),
        g1@.len() > 0,
        forall|i: int| 0 <= i < g1@.len() ==> g1_valid(#[trigger] g1@[i]@),
        forall|i: int| 0 <= i < g2@.len() ==> g2_valid(#[trigger] g2@[i]@),
    ensures
        r == bn254_pairing(g1_views(g1@), g2_views(g2@)),
{
    let mut v1 = soroban_sdk::Vec::new(env);
    for p in g1.iter() {
        v1.push_back(Bn254G1Affine::from_array(env, p));
    }
    let mut v2 = soroban_sdk::Vec::new(env);
    for q in g2.iter() {
        v2.push_back(Bn254G2Affine::from_array(env, q));
    }
    env.crypto().bn254().pairing_check(v1, v2)
}

/// Whether `point` is a G1 encoding that the host accepts.
pub fn g1_is_valid(env: &Env, point: &[u8; 64]) -> (r: bool)
    ensures
        r == g1_valid(point@),
{
    if !g1_coordinates_in_field(point) {
        return false;
    }
    host_g1_is_on_curve(env, point)
}

/// `L = IC[0] + sum(IC[i + 1] * input[i])`: `IC[0]` where there is no
/// public input, else `IC[0]` plus the multi-scalar product of `IC[1..]`
/// and the inputs.
pub open spec fn spec_l(vk: VerifyingKeyView, inputs: Seq<Seq<u8>>) -> Seq<u8> {
    if inputs.len() == 0 {
        vk.ic[0]
    } else {
        bn254_g1_add(vk.ic[0], bn254_g1_msm(vk.ic.drop_first(), inputs))
    }
}

/// The G1 side of the Groth16 check
/// `e(A, B) * e(-alpha, beta) * e(-L, gamma) * e(-C, delta) == 1`:
/// `A, -alpha, -L, -C`.
pub open spec fn groth16_g1(proof: Groth16Proof, vk: VerifyingKeyView, l_point: Seq<u8>) -> Seq<Seq<u8>> {
    seq![proof.a@, g1_neg(vk.alpha), g1_neg(l_point), g1_neg(proof.c@)]
}

/// The G2 side of the Groth16 check: `B, beta, gamma, delta`.
pub open spec fn groth16_g2(proof: Groth16Proof, vk: VerifyingKeyView) -> Seq<Seq<u8>> {
    seq![proof.b@, vk.beta, vk.gamma, vk.delta]
}

/// Whether the Groth16 equation holds for `proof`, the key `vk` and the
/// public inputs: the host's multi-pairing check of the four pairs.
pub open spec fn groth16_holds(proof: Groth16Proof, vk: VerifyingKeyView, inputs: Seq<Seq<u8>>) -> bool {
    bn254_pairing(groth16_g1(proof, vk, spec_l(vk, inputs)), groth16_g2(proof, vk))
}

/// `verify` does not abort before the curve work: a key is registered for
/// the circuit and the number of public inputs is one less than the number
/// of its IC points.
pub open spec fn verify_accepts(keys: Map<Seq<u8>, VerifyingKeyView>, circuit_id: Seq<u8>, inputs: Seq<Seq<u8>>) -> bool {
    keys.dom().contains(circuit_id) && inputs.len() + 1 == keys[circuit_id].ic.len()
}

/// Every IC point of the key is a valid G1 encoding.
pub open spec fn ic_valid(vk: VerifyingKeyView) -> bool {
    forall|i: int| 0 <= i < vk.ic.len() ==> g1_valid(#[trigger] vk.ic[i])
}

/// The G1 points of the proof and the key are valid encodings.
pub open spec fn groth16_g1_valid(proof: Groth16Proof, vk: VerifyingKeyView) -> bool {
    &&& g1_valid(proof.a@)
    &&& g1_valid(proof.c@)
    &&& g1_valid(vk.alpha)
    &&& ic_valid(vk)
}

/// The G2 points of the proof and the key are valid encodings. No host
/// function tests this short of the pairing check, which traps where it
/// fails; a caller must know its keys and proofs to be well formed.
pub open spec fn groth16_g2_valid(proof: Groth16Proof, vk: VerifyingKeyView) -> bool {
    &&& g2_valid(proof.b@)
    &&& g2_valid(vk.beta)
    &&& g2_valid(vk.gamma)
    &&& g2_valid(vk.delta)
}

/// Where `verify` aborts before it answers, in the order of its steps: no
/// key; a wrong number of inputs; an IC point the host rejects while it
/// forms `L`; a point to negate (alpha, `L`, C) whose `Y` is not below `p`,
/// on which the SDK's negation aborts; a G1 point the host rejects in the
/// pairing check. G2 points are not covered (see `groth16_g2_valid`).
pub open spec fn verify_outcome(
    keys: Map<Seq<u8>, VerifyingKeyView>,
    circuit_id: Seq<u8>,
    proof: Groth16Proof,
    inputs: Seq<Seq<u8>>,
) -> Result<(), VerifierError> {
    let vk = keys[circuit_id];
    if !keys.dom().contains(circuit_id) {
        Err(VerifierError::VerifyingKeyNotRegistered)
    } else if inputs.len() + 1 != vk.ic.len() {
        Err(VerifierError::WrongInputCount)
    } else if inputs.len() > 0 && !ic_valid(vk) {
        Err(VerifierError::InvalidPoint)
    } else if !(g1_negatable(vk.alpha) && (inputs.len() == 0 ==> g1_negatable(vk.ic[0])) && g1_negatable(
        proof.c@,
    )) {
        Err(VerifierError::InvalidFieldElement)
    } else if !groth16_g1_valid(proof, vk) {
        Err(VerifierError::InvalidPoint)
    } else {
        Ok(())
    }
}

/// What `verify` answers for the registered keys: whether the Groth16
/// equation holds for the key of `circuit_id`.
pub open spec fn spec_verify(
    keys: Map<Seq<u8>, VerifyingKeyView>,
    circuit_id: Seq<u8>,
    proof: Groth16Proof,
    inputs: Seq<Seq<u8>>,
) -> bool {
    groth16_holds(proof, keys[circuit_id], inputs)
}

/// The verifier contract and its persistent storage: the registered keys.
pub struct BN254Verifier {
    /// Persistent storage under `Key::VerifyingKey(..)`.
    pub keys: PersistentMap<VerifyingKey>,
}

impl View for BN254Verifier {
    type V = Map<Seq<u8>, VerifyingKeyView>;

    closed spec fn view(&self) -> Map<Seq<u8>, VerifyingKeyView> {
        self.keys.entries()
    }
}

impl BN254Verifier {
    /// The storage is well formed.
    pub closed spec fn wf(&self) -> bool {
        self.keys.wf()
    }

    /// A freshly deployed verifier: no key is registered.
    pub fn new() -> (v: Self)
        ensures
            v.wf(),
            v@ == Map::<Seq<u8>, VerifyingKeyView>::empty(),
    {
        BN254Verifier { keys: PersistentMap::new() }
    }

    /// Registers `vk` for circuit `circuit_id`, replacing the key registered
    /// for it before. Registration is open.
    pub fn register_vk(&mut self, circuit_id: [u8; 32], vk: VerifyingKey)
        requires
            old(self).wf(),
        ensures
            final(self).wf(),
            final(self)@ == old(self)@.insert(circuit_id@, vk@),
    {
        self.keys.set(circuit_id, vk);
    }

    /// Whether a key is registered for circuit `circuit_id`.
    pub fn has_vk(&self, circuit_id: &[u8; 32]) -> (r: bool)
        requires
            self.wf(),
        ensures
            r == self@.dom().contains(circuit_id@),
    {
        self.keys.has(circuit_id)
    }

    /// The key registered for circuit `circuit_id`. The contract aborts
    /// with "not found" where none is.
    pub fn get_vk(&self, circuit_id: [u8; 32]) -> (vk: VerifyingKey)
        requires
            self.wf(),
            self@.dom().contains(circuit_id@),
        ensures
            vk@ == self@[circuit_id@],
    {
        match self.keys.get(&circuit_id) {
            Some(vk) => vk.clone(),
            None => {
                proof {
                    assert(false);
                }
                VerifyingKey {
                    alpha: [0u8; 64],
                    beta: [0u8; 128],
                    gamma: [0u8; 128],
                    delta: [0u8; 128],
                    ic: Vec::new(),
                }
            },
        }
    }

    /// `L = IC[0] + sum(IC[i + 1] * input[i])`, by the host's `g1_msm` and
    /// `g1_add`.
    pub fn compute_linear_combination(env: &Env, vk: &VerifyingKey, public_inputs: &Vec<[u8; 32]>) -> (l_point:
        [u8; 64])
        requires
            vk.ic@.len() == public_inputs@.len() + 1,
            ic_valid(vk@),
        ensures
            l_point@ == spec_l(vk@, input_views(public_inputs@)),
            g1_valid(l_point@),
    {
        let base: [u8; 64] = vk.ic[0];
        assert(g1_valid(vk@.ic[0]));
        if public_inputs.len() == 0 {
            return base;
        }
        let mut points: Vec<[u8; 64]> = Vec::new();
        let mut i: usize = 1;
        while i < vk.ic.len()
            invariant
                1 <= i <= vk.ic@.len(),
                points@ == vk.ic@.subrange(1, i as int),
            decreases vk.ic@.len() - i,
        {
            points.push(vk.ic[i]);
            i = i + 1;
            assert(points@ =~= vk.ic@.subrange(1, i as int));
        }
        assert(g1_views(points@) =~= vk@.ic.drop_first());
        assert forall|k: int| 0 <= k < points@.len() implies g1_valid(#[trigger] points@[k]@) by {
            assert(points@[k]@ == vk@.ic[k + 1]);
        }
        let sum = host_g1_msm(env, &points, public_inputs);
        host_g1_add(env, &base, &sum)
    }

    /// The Groth16 multi-pairing check
    /// `e(A, B) * e(-alpha, beta) * e(-L, gamma) * e(-C, delta) == 1`, by the
    /// host's `pairing_check`.
    pub fn pairing_check(env: &Env, proof: &Groth16Proof, vk: &VerifyingKey, l_point: &[u8; 64]) -> (holds: bool)
        requires
            g1_valid(proof.a@),
            g1_valid(proof.c@),
            g1_valid(vk.alpha@),
            g1_valid(l_point@),
            groth16_g2_valid(*proof, vk@),
        ensures
            holds == bn254_pairing(groth16_g1(*proof, vk@, l_point@), groth16_g2(*proof, vk@)),
            holds == bn254_pairing(
                seq![proof.a@, g1_neg(vk.alpha@), g1_neg(l_point@), g1_neg(proof.c@)],
                seq![proof.b@, vk.beta@, vk.gamma@, vk.delta@],
            ),
    {
        let neg_alpha = g1_negate(&vk.alpha);
        let neg_l = g1_negate(l_point);
        let neg_c = g1_negate(&proof.c);
        let g1: Vec<[u8; 64]> = vec![proof.a, neg_alpha, neg_l, neg_c];
        let g2: Vec<[u8; 128]> = vec![proof.b, vk.beta, vk.gamma, vk.delta];
        assert(g1_views(g1@) =~= groth16_g1(*proof, vk@, l_point@));
        assert(g2_views(g2@) =~= groth16_g2(*proof, vk@));
        assert forall|i: int| 0 <= i < g1@.len() implies g1_valid(#[trigger] g1@[i]@) by {
            assert(g1@[i]@ == groth16_g1(*proof, vk@, l_point@)[i]);
        }
        assert forall|i: int| 0 <= i < g2@.len() implies g2_valid(#[trigger] g2@[i]@) by {
            assert(g2@[i]@ == groth16_g2(*proof, vk@)[i]);
        }
        host_pairing_check(env, &g1, &g2)
    }

    /// Where `verify` would abort for these arguments, or `Ok` where it
    /// answers (G2 points aside, see `groth16_g2_valid`).
    pub fn check_verify(&self, env: &Env, circuit_id: [u8; 32], proof: &Groth16Proof, public_inputs: &Vec<[u8; 32]>) -> (r:
        Result<(), VerifierError>)
        requires
            self.wf(),
        ensures
            r == verify_outcome(self@, circuit_id@, *proof, input_views(public_inputs@)),
    {
        let vk = match self.keys.get(&circuit_id) {
            Some(vk) => vk,
            None => {
                return Err(VerifierError::VerifyingKeyNotRegistered);
            },
        };
        if vk.ic.len() == 0 || public_inputs.len() != vk.ic.len() - 1 {
            return Err(VerifierError::WrongInputCount);
        }
        let mut all_ic: bool = true;
        let mut i: usize = 0;
        while i < vk.ic.len()
            invariant
                i <= vk.ic@.len(),
                all_ic <==> forall|k: int| 0 <= k < i ==> g1_valid(#[trigger] vk@.ic[k]),
            decreases vk.ic@.len() - i,
        {
            let ok = g1_is_valid(env, &vk.ic[i]);
            proof {
                if all_ic && ok {
                    assert forall|k: int| 0 <= k < i + 1 implies g1_valid(#[trigger] vk@.ic[k]) by {
                        if k == i {
                            assert(vk@.ic[k] == vk.ic@[k]@);
                        }
                    }
                }
                if !ok {
                    assert(vk@.ic[i as int] == vk.ic@[i as int]@);
                }
            }
            all_ic = all_ic && ok;
            i = i + 1;
        }
        if public_inputs.len() > 0 && !all_ic {
            return Err(VerifierError::InvalidPoint);
        }
        let base_negatable = public_inputs.len() > 0 || g1_is_negatable(&vk.ic[0]);
        if !(g1_is_negatable(&vk.alpha) && base_negatable && g1_is_negatable(&proof.c)) {
            return Err(VerifierError::InvalidFieldElement);
        }
        if !(g1_is_valid(env, &proof.a) && g1_is_valid(env, &proof.c) && g1_is_valid(env, &vk.alpha) && all_ic) {
            return Err(VerifierError::InvalidPoint);
        }
        Ok(())
    }

    /// Whether `proof` is valid for the key registered for `circuit_id` and
    /// the public inputs: the host's answer to the Groth16 multi-pairing
    /// check. The contract aborts where `check_verify` gives an error.
    pub fn verify(&self, env: &Env, circuit_id: [u8; 32], proof: &Groth16Proof, public_inputs: &Vec<[u8; 32]>) -> (valid:
        bool)
        requires
            self.wf(),
            verify_accepts(self@, circuit_id@, input_views(public_inputs@)),
            groth16_g1_valid(*proof, self@[circuit_id@]),
            groth16_g2_valid(*proof, self@[circuit_id@]),
        ensures
            valid == spec_verify(self@, circuit_id@, *proof, input_views(public_inputs@)),
    {
        match self.keys.get(&circuit_id) {
            Some(vk) => {
                let l_point = Self::compute_linear_combination(env, vk, public_inputs);
                Self::pairing_check(env, proof, vk, &l_point)
            },
            None => {
                proof {
                    assert(false);
                }
                false
            },
        }
    }
}

/// Reading a key back gives what was registered: after `vk` is registered
/// for `circuit_id`, `get_vk` of that circuit returns `vk`, and the key of
/// every other circuit is what it was before.
pub proof fn lemma_get_vk_after_register(
    keys: Map<Seq<u8>, VerifyingKeyView>,
    circuit_id: Seq<u8>,
    vk: VerifyingKeyView,
    other: Seq<u8>,
)
    ensures
        keys.insert(circuit_id, vk).dom().contains(circuit_id),
        keys.insert(circuit_id, vk)[circuit_id] == vk,
        other != circuit_id ==> (keys.insert(circuit_id, vk).dom().contains(other) == keys.dom().contains(other)
            && keys.insert(circuit_id, vk)[other] == keys[other]),
{
}

/// After `vk` is registered for `circuit_id`, `verify` accepts exactly the
/// public inputs one fewer than `vk`'s IC points, and answers the Groth16
/// check against `vk`, whatever was registered for the circuit before.
pub proof fn lemma_verify_after_register(
    keys: Map<Seq<u8>, VerifyingKeyView>,
    circuit_id: Seq<u8>,
    vk: VerifyingKeyView,
    proof: Groth16Proof,
    inputs: Seq<Seq<u8>>,
)
    ensures
        verify_accepts(keys.insert(circuit_id, vk), circuit_id, inputs) <==> inputs.len() + 1 == vk.ic.len(),
        spec_verify(keys.insert(circuit_id, vk), circuit_id, proof, inputs) == groth16_holds(proof, vk, inputs),
{
}

/// The pairs of the Groth16 check
/// `e(A, B) * e(-alpha, beta) * e(-L, gamma) * e(-C, delta) == 1`: the G1
/// side is `A` and the negations (`X` kept, `Y` replaced by `p - Y`) of
/// alpha, `L` and `C`, and the G2 side is `B, beta, gamma, delta`.
pub proof fn lemma_groth16_pairs(proof: Groth16Proof, vk: VerifyingKeyView, l_point: Seq<u8>)
    requires
        vk.alpha.len() == 64,
        l_point.len() == 64,
        g1_negatable(vk.alpha),
        g1_negatable(l_point),
        g1_negatable(proof.c@),
    ensures
        groth16_g1(proof, vk, l_point).len() == 4,
        groth16_g1(proof, vk, l_point)[0] == proof.a@,
        is_g1_negation(vk.alpha, groth16_g1(proof, vk, l_point)[1]),
        is_g1_negation(l_point, groth16_g1(proof, vk, l_point)[2]),
        is_g1_negation(proof.c@, groth16_g1(proof, vk, l_point)[3]),
        groth16_g2(proof, vk) == seq![proof.b@, vk.beta, vk.gamma, vk.delta],
{
    lemma_g1_neg_exists(vk.alpha);
    lemma_g1_neg_exists(l_point);
    lemma_g1_neg_exists(proof.c@);
}

/// A valid G1 point can be negated, so the Groth16 pairs are formed for
/// every key and proof that `verify` accepts, with `L` from the inputs.
pub proof fn lemma_groth16_pairs_of_verify(
    keys: Map<Seq<u8>, VerifyingKeyView>,
    circuit_id: Seq<u8>,
    proof: Groth16Proof,
    l_point: Seq<u8>,
)
    requires
        keys.dom().contains(circuit_id),
        groth16_g1_valid(proof, keys[circuit_id]),
        g1_valid(l_point),
    ensures
        is_g1_negation(keys[circuit_id].alpha, groth16_g1(proof, keys[circuit_id], l_point)[1]),
        is_g1_negation(l_point, groth16_g1(proof, keys[circuit_id], l_point)[2]),
        is_g1_negation(proof.c@, groth16_g1(proof, keys[circuit_id], l_point)[3]),
{
    lemma_groth16_pairs(proof, keys[circuit_id], l_point);
}

/// `L` is `IC[0]` where there is no public input, and otherwise the host's
/// sum of `IC[0]` and the multi-scalar product of `IC[1..]` with the
/// inputs, in order.
pub proof fn lemma_linear_combination(vk: VerifyingKeyView, inputs: Seq<[u8; 32]>)
    ensures
        inputs.len() == 0 ==> spec_l(vk, input_views(inputs)) == vk.ic[0],
        inputs.len() > 0 ==> spec_l(vk, input_views(inputs)) == bn254_g1_add(
            vk.ic[0],
            bn254_g1_msm(vk.ic.subrange(1, vk.ic.len() as int), inputs.map_values(|x: [u8; 32]| x@)),
        ),
{
    assert(vk.ic.drop_first() =~= vk.ic.subrange(1, vk.ic.len() as int));
}

/// `verify` answers the multi-pairing check of `A, -alpha, -L, -C` against
/// `B, beta, gamma, delta` for the key registered for the circuit, and
/// aborts first where no key is registered, then where the number of
/// inputs is not one less than the number of IC points.
pub proof fn lemma_verify_answer(
    keys: Map<Seq<u8>, VerifyingKeyView>,
    circuit_id: Seq<u8>,
    proof: Groth16Proof,
    inputs: Seq<Seq<u8>>,
)
    ensures
        spec_verify(keys, circuit_id, proof, inputs) == bn254_pairing(
            seq![
                proof.a@,
                g1_neg(keys[circuit_id].alpha),
                g1_neg(spec_l(keys[circuit_id], inputs)),
                g1_neg(proof.c@),
            ],
            seq![proof.b@, keys[circuit_id].beta, keys[circuit_id].gamma, keys[circuit_id].delta],
        ),
        !keys.dom().contains(circuit_id) ==> verify_outcome(keys, circuit_id, proof, inputs) == Err::<
            (),
            VerifierError,
        >(VerifierError::VerifyingKeyNotRegistered),
        keys.dom().contains(circuit_id) && inputs.len() + 1 != keys[circuit_id].ic.len() ==> verify_outcome(
            keys,
            circuit_id,
            proof,
            inputs,
        ) == Err::<(), VerifierError>(VerifierError::WrongInputCount),
        verify_outcome(keys, circuit_id, proof, inputs) is Ok ==> keys.dom().contains(circuit_id)
            && inputs.len() + 1 == keys[circuit_id].ic.len(),
{
}

/// Where `check_verify` gives `Ok`, `verify` can be called: the key is
/// registered, the number of inputs matches it and every G1 point is valid.
pub proof fn lemma_verify_outcome_ok(
    keys: Map<Seq<u8>, VerifyingKeyView>,
    circuit_id: Seq<u8>,
    proof: Groth16Proof,
    inputs: Seq<Seq<u8>>,
)
    requires
        verify_outcome(keys, circuit_id, proof, inputs) is Ok,
    ensures
        verify_accepts(keys, circuit_id, inputs),
        groth16_g1_valid(proof, keys[circuit_id]),
{
}

/// The keys after registering each `(circuit_id, vk)` of `registrations`
/// in order.
pub open spec fn spec_register_all(
    keys: Map<Seq<u8>, VerifyingKeyView>,
    registrations: Seq<(Seq<u8>, VerifyingKeyView)>,
) -> Map<Seq<u8>, VerifyingKeyView>
    decreases registrations.len(),
{
    if registrations.len() == 0 {
        keys
    } else {
        spec_register_all(keys, registrations.drop_last()).insert(
            registrations.last().0,
            registrations.last().1,
        )
    }
}

/// A registered key stays what it is through any sequence of registrations
/// of other circuits: after `vk` is registered for `circuit_id`, `get_vk`
/// of that circuit returns `vk` until it is registered again.
pub proof fn lemma_get_vk_after_other_registrations(
    keys: Map<Seq<u8>, VerifyingKeyView>,
    circuit_id: Seq<u8>,
    vk: VerifyingKeyView,
    registrations: Seq<(Seq<u8>, VerifyingKeyView)>,
)
    requires
        forall|i: int| 0 <= i < registrations.len() ==> (#[trigger] registrations[i]).0 != circuit_id,
    ensures
        spec_register_all(keys.insert(circuit_id, vk), registrations).dom().contains(circuit_id),
        spec_register_all(keys.insert(circuit_id, vk), registrations)[circuit_id] == vk,
    decreases registrations.len(),
{
    if registrations.len() > 0 {
        let rest = registrations.drop_last();
        assert forall|i: int| 0 <= i < rest.len() implies (#[trigger] rest[i]).0 != circuit_id by {
            assert(rest[i] == registrations[i]);
        }
        lemma_get_vk_after_other_registrations(keys, circuit_id, vk, rest);
        assert(registrations.last() == registrations[registrations.len() - 1]);
    }
}

} // verus!
