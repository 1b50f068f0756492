//! A Poseidon-style hash over the BN254 scalar field, with a binary call
//! interface (a four-byte selector followed by ABI-encoded arguments).
//!
//! Every operation is a pure function of its inputs; the contracts state the
//! results over the mathematical model in `field` and `hasher`.
//!
//! One algorithm is implemented: the eight-round variant described in
//! `hasher`, which derives its round constants from the input and has no
//! MDS layer. It is kept for output compatibility with existing deployments;
//! it is not the standard, security-reviewed Poseidon permutation.
use vstd::prelude::*;

pub mod field;
pub mod errors;
pub mod hasher;
pub mod interface;
pub mod entrypoint;
pub mod utils;

pub use errors::PoseidonError;
pub use field::U256;
pub use hasher::{PoseidonHash, PoseidonParams};
pub use interface::{poseidon_precompile, POSEIDON1_SELECTOR, POSEIDON2_SELECTOR, POSEIDONN_SELECTOR};
pub use entrypoint::PoseidonPrecompile;

verus! {

} // verus!
