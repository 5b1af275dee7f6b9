# stellarzk-contracts

Verified models of three Soroban contracts built for zero-knowledge payments:

- `src/poseidon_hasher.rs`: the Poseidon hash over the BN254 scalar field
  (soroban-poseidon, circomlib parameters) of one to four field elements,
  commitments and nullifiers.
- `src/bn254_verifier.rs`: a registry of Groth16 verifying keys and proof
  verification against them, with the host's BN254 `g1_msm`, `g1_add` and
  multi-pairing check.
- `src/field.rs`: BN254 field elements in big-endian bytes, valid G1 and G2
  encodings, and negation of G1 points in the base field.
- `src/host.rs`: the Soroban host handle that the hash and the curve work
  are computed with.
- `src/private_transfer.rs`: deposits stored as commitments and withdrawals
  recorded by nullifier, each nullifier spent at most once.
- `src/store.rs`: the keyed persistent storage the contracts share.

Each contract's storage is a value of the library, and each entry point is
specified as a transition of it. Where a contract aborts, the entry point
requires that the case does not arise, and a `check_*` function of the
library tells which abort comes first; `app/` calls it and aborts with the
contract's message. `app/` holds the Soroban entry points: they load the
storage entries a call touches into the library's model, call the library,
write the entries back, make the cross-contract call to the verifier and
publish the events.
