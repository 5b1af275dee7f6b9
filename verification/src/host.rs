//! The Soroban host environment, handed to the host functions that the
//! library calls.

use vstd::prelude::*;

verus! {

/// `soroban_sdk::Env`: a handle to the Soroban host.
#[verifier::external_type_specification]
#[verifier::external_body]
pub struct ExEnv(soroban_sdk::Env);

} // verus!
