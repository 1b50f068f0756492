//! The host-contract surface: two entry points that call the hasher directly.
//!
//! Failure policy: these entry points do not surface errors. On an input
//! that the hasher rejects (a value at or above the field modulus) they
//! return zero, which is indistinguishable from a hash output of zero.
//! Callers that need the error use `PoseidonHash` or `poseidon_precompile`.
use vstd::prelude::*;
use crate::field::U256;
use crate::hasher::{PoseidonHash, is_field_element, poseidon_single, poseidon_pair};

verus! {

/// The contract surface exposed to the host chain.
pub struct PoseidonPrecompile {}

impl PoseidonPrecompile {
    pub fn new() -> (r: Self) {
        PoseidonPrecompile {  }
    }

    /// Hash of one element, or zero when `input` is not a field element.
    pub fn hash(&self, input: U256) -> (r: U256)
        ensures
            is_field_element(input.value()) ==> r.value() == poseidon_single(input.value()),
            !is_field_element(input.value()) ==> r.value() == 0,
    {
        let hasher = PoseidonHash::new();
        match hasher.hash_single(input) {
            Ok(result) => result,
            Err(_) => U256::zero(),
        }
    }

    /// Hash of an ordered pair, or zero when either is not a field element.
    pub fn hash_pair(&self, a: U256, b: U256) -> (r: U256)
        ensures
            is_field_element(a.value()) && is_field_element(b.value()) ==> r.value()
                == poseidon_pair(a.value(), b.value()),
            !(is_field_element(a.value()) && is_field_element(b.value())) ==> r.value() == 0,
    {
        let hasher = PoseidonHash::new();
        match hasher.hash_pair(a, b) {
            Ok(result) => result,
            Err(_) => U256::zero(),
        }
    }
}

} // verus!
