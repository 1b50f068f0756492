//! The hashing engine: field validation, the round function, the pair mixer
//! and the array chainer.
//!
//! The round function is the fixed eight-round variant: round `i` adds
//! `2^(i+1) xor x` (with `x` the unmodified input) and applies the power-five
//! S-box, reducing modulo `p` after every step. `partial_rounds` is carried
//! as configuration and not consumed by the rounds.
use vstd::prelude::*;
use vstd::arithmetic::power::pow;
use vstd::arithmetic::power2::{pow2, lemma_pow2, lemma_pow2_strictly_increases, lemma2_to64};
use vstd::arithmetic::div_mod::{lemma_add_mod_noop, lemma_mul_mod_noop_general, lemma_mul_mod_noop_left, lemma_small_mod};
use crate::field::{U256, field_modulus, xor_nat, word_bound};
use crate::errors::PoseidonError;

verus! {

/// Number of full rounds of the permutation.
pub open spec fn full_rounds_spec() -> nat {
    8
}

/// The constant added in round `i` to a permutation of input `x`.
pub open spec fn round_constant(x: nat, i: nat) -> nat {
    xor_nat(pow2(i + 1), x)
}

/// The S-box: `t^5 mod p`.
pub open spec fn sbox(t: nat) -> nat {
    (t * t * t * t * t) % field_modulus()
}

/// The state after `n` rounds of the permutation of `x`.
pub open spec fn permute(x: nat, n: nat) -> nat
    decreases n,
{
    if n == 0 {
        x
    } else {
        let prev = permute(x, (n - 1) as nat);
        sbox((prev + round_constant(x, (n - 1) as nat)) % field_modulus())
    }
}

/// The hash of one field element.
#[verifier::opaque]
pub open spec fn poseidon_single(x: nat) -> nat {
    permute(x, full_rounds_spec())
}

/// The hash of an ordered pair of field elements.
pub open spec fn poseidon_pair(left: nat, right: nat) -> nat {
    let p = field_modulus();
    let intermediate = poseidon_single((left + right + 1) % p);
    poseidon_single((3 * left + 5 * right + intermediate) % p)
}

/// Left fold of a non-empty sequence with `poseidon_pair`.
pub open spec fn poseidon_chain(s: Seq<nat>) -> nat
    decreases s.len(),
{
    if s.len() == 0 {
        0
    } else if s.len() == 1 {
        s[0]
    } else {
        poseidon_pair(poseidon_chain(s.drop_last()), s.last())
    }
}

/// Whether `x` is a field element.
pub open spec fn is_field_element(x: nat) -> bool {
    x < field_modulus()
}

/// The numbers that a sequence of words stands for.
pub open spec fn values(s: Seq<U256>) -> Seq<nat> {
    s.map_values(|u: U256| u.value())
}

/// Index of the first element of `s` that is not a field element.
pub open spec fn first_invalid(s: Seq<U256>, i: int) -> bool {
    &&& 0 <= i < s.len()
    &&& !is_field_element(s[i].value())
    &&& forall|j: int| 0 <= j < i ==> is_field_element(#[trigger] s[j].value())
}

proof fn lemma_sbox_steps(t: nat)
    ensures
        ((((t * t) % field_modulus()) * ((t * t) % field_modulus())) % field_modulus() * t)
            % field_modulus() == sbox(t),
{
    let p = field_modulus() as int;
    let a = (t * t) as int;
    lemma_mul_mod_noop_general(a, a, p);
    lemma_mul_mod_noop_left(a * a, t as int, p);
    assert(a * a * t == t * t * t * t * t) by (nonlinear_arith)
        requires a == t * t;
}

proof fn lemma_round_constant_word(i: nat)
    requires
        i < 8,
    ensures
        pow(2, i + 1) % (word_bound() as int) == pow2(i + 1),
{
    lemma_pow2(i + 1);
    if i + 1 < 8 {
        lemma_pow2_strictly_increases(i + 1, 8);
    }
    lemma2_to64();
    lemma_small_mod(pow2(i + 1), word_bound());
}

/// Range: every hash of field elements is a field element.
pub proof fn lemma_hashes_in_field(a: nat, b: nat, s: Seq<nat>)
    requires
        is_field_element(a),
        is_field_element(b),
        forall|i: int| 0 <= i < s.len() ==> is_field_element(#[trigger] s[i]),
    ensures
        is_field_element(poseidon_single(a)),
        is_field_element(poseidon_pair(a, b)),
        s.len() > 0 ==> is_field_element(poseidon_chain(s)),
    decreases s.len(),
{
    reveal(poseidon_single);
    if s.len() > 1 {
        let t = s.drop_last();
        assert(forall|i: int| 0 <= i < t.len() ==> t[i] == s[i]);
        lemma_hashes_in_field(a, b, t);
    }
}

/// Hashing is deterministic: two words with the same value hash to the same
/// value, so repeated calls on one input agree.
pub proof fn lemma_hash_single_deterministic(a: U256, b: U256)
    requires
        a.value() == b.value(),
    ensures
        poseidon_single(a.value()) == poseidon_single(b.value()),
{
}

/// Chaining: the hash of `[a, b, c]` is the pair hash of the pair hash of
/// `a` and `b` with `c`.
pub proof fn lemma_chain_of_three(a: nat, b: nat, c: nat)
    requires
        is_field_element(a),
        is_field_element(b),
        is_field_element(c),
    ensures
        poseidon_chain(seq![a, b, c]) == poseidon_pair(poseidon_pair(a, b), c),
{
    assert(seq![a].push(b) =~= seq![a, b]);
    assert(seq![a, b].push(c) =~= seq![a, b, c]);
    lemma_chain_push(seq![a], b);
    lemma_chain_push(seq![a, b], c);
}

/// Chaining, one element at a time: appending `x` to a non-empty sequence
/// pair-hashes the previous chain hash with `x`.
pub proof fn lemma_chain_push(s: Seq<nat>, x: nat)
    requires
        s.len() > 0,
    ensures
        poseidon_chain(s.push(x)) == poseidon_pair(poseidon_chain(s), x),
{
    assert(s.push(x).drop_last() =~= s);
}

/// Parameters of the hash over the BN254 scalar field.
pub struct PoseidonParams {
    /// Prime field modulus.
    pub modulus: U256,
    /// Number of full rounds.
    pub full_rounds: usize,
    /// Number of partial rounds (configuration only; the rounds do not use it).
    pub partial_rounds: usize,
}

impl PoseidonParams {
    /// The parameters that the contracts of this library are stated for.
    pub open spec fn wf(&self) -> bool {
        &&& self.modulus.value() == field_modulus()
        &&& self.full_rounds == full_rounds_spec()
    }
}

impl Default for PoseidonParams {
    fn default() -> (r: Self)
        ensures
            r.wf(),
            r.partial_rounds == 57,
    {
        PoseidonParams { modulus: U256::modulus(), full_rounds: 8, partial_rounds: 57 }
    }
}

/// The hasher: stateless beyond its fixed parameters.
pub struct PoseidonHash {
    pub params: PoseidonParams,
}

impl Default for PoseidonHash {
    fn default() -> (r: Self)
        ensures
            r.wf(),
            r.params.partial_rounds == 57,
    {
        Self::new()
    }
}

impl PoseidonHash {
    pub open spec fn wf(&self) -> bool {
        self.params.wf()
    }

    /// A hasher with the default parameters.
    pub fn new() -> (r: Self)
        ensures
            r.wf(),
            r.params.partial_rounds == 57,
    {
        PoseidonHash { params: PoseidonParams::default() }
    }

    /// Returns `element` unchanged if it lies below the modulus.
    pub fn validate_field_element(&self, element: U256) -> (r: Result<U256, PoseidonError>)
        requires
            self.wf(),
        ensures
            is_field_element(element.value()) ==> r == Ok::<U256, PoseidonError>(element),
            !is_field_element(element.value()) ==> r == Err::<U256, PoseidonError>(
                PoseidonError::FieldElementTooLarge(element),
            ),
    {
        if element.lt(&self.params.modulus) {
            Ok(element)
        } else {
            Err(PoseidonError::FieldElementTooLarge(element))
        }
    }

    /// Hash of a single field element: eight rounds of round-constant
    /// addition and the power-five S-box, reduced modulo `p` at every step.
    pub fn hash_single(&self, input: U256) -> (r: Result<U256, PoseidonError>)
        requires
            self.wf(),
        ensures
            is_field_element(input.value()) ==> (r matches Ok(h) && h.value() == poseidon_single(
                input.value(),
            ) && is_field_element(h.value())),
            !is_field_element(input.value()) ==> r == Err::<U256, PoseidonError>(
                PoseidonError::FieldElementTooLarge(input),
            ),
    {
        match self.validate_field_element(input) {
            Err(e) => return Err(e),
            Ok(_) => {},
        }
        let p = self.params.modulus;
        let two = U256::from_u64(2);
        let mut result = input;
        let mut i: usize = 0;
        while i < self.params.full_rounds
            invariant
                self.wf(),
                p.value() == field_modulus(),
                two.value() == 2,
                i <= full_rounds_spec(),
                result.value() == permute(input.value(), i as nat),
            decreases full_rounds_spec() - i,
        {
            let exponent = U256::from_u64((i + 1) as u64);
            let round_constant = two.pow(exponent).bitxor(input);
            proof {
                lemma_round_constant_word(i as nat);
            }
            result = result.add_mod(round_constant, p);
            let t = result;
            result = t.mul_mod(t, p);
            result = result.mul_mod(result, p);
            result = result.mul_mod(t, p);
            proof {
                lemma_sbox_steps(t.value());
            }
            i = i + 1;
        }
        proof {
            reveal(poseidon_single);
        }
        Ok(result)
    }

    /// Order-sensitive hash of two field elements: `combined = left + right + 1`
    /// is hashed, the result is remixed as `3*left + 5*right + intermediate`,
    /// and that is hashed again (all modulo `p`).
    pub fn hash_pair(&self, left: U256, right: U256) -> (r: Result<U256, PoseidonError>)
        requires
            self.wf(),
        ensures
            !is_field_element(left.value()) ==> r == Err::<U256, PoseidonError>(
                PoseidonError::FieldElementTooLarge(left),
            ),
            is_field_element(left.value()) && !is_field_element(right.value()) ==> r == Err::<
                U256,
                PoseidonError,
            >(PoseidonError::FieldElementTooLarge(right)),
            is_field_element(left.value()) && is_field_element(right.value()) ==> (r matches Ok(h)
                && h.value() == poseidon_pair(left.value(), right.value()) && is_field_element(
                h.value(),
            )),
    {
        match self.validate_field_element(left) {
            Err(e) => return Err(e),
            Ok(_) => {},
        }
        match self.validate_field_element(right) {
            Err(e) => return Err(e),
            Ok(_) => {},
        }
        let p = self.params.modulus;
        let ghost pm = field_modulus() as int;
        let ghost (l, rt) = (left.value() as int, right.value() as int);
        let combined = left.add_mod(right, p).add_mod(U256::from_u64(1), p);
        proof {
            lemma_add_mod_noop(l + rt, 1, pm);
            lemma_small_mod(1, pm as nat);
            lemma_small_mod(((l + rt) % pm) as nat, pm as nat);
        }
        let intermediate = match self.hash_single(combined) {
            Ok(h) => h,
            Err(e) => return Err(e),
        };
        let ghost m = intermediate.value() as int;
        let scaled = left.mul_mod(U256::from_u64(3), p).add_mod(right.mul_mod(U256::from_u64(5), p), p);
        let remixed = scaled.add_mod(intermediate, p);
        proof {
            lemma_add_mod_noop(l * 3, rt * 5, pm);
            lemma_add_mod_noop(l * 3 + rt * 5, m, pm);
            lemma_small_mod(m as nat, pm as nat);
            lemma_small_mod(((l * 3 + rt * 5) % pm) as nat, pm as nat);
            assert(l * 3 + rt * 5 + m == 3 * l + 5 * rt + m);
        }
        self.hash_single(remixed)
    }

    /// Left fold of a non-empty array with `hash_pair`; every element is
    /// validated first, and the first invalid one is reported.
    pub fn hash_array(&self, inputs: &[U256]) -> (r: Result<U256, PoseidonError>)
        requires
            self.wf(),
        ensures
            inputs@.len() == 0 ==> r == Err::<U256, PoseidonError>(
                PoseidonError::InvalidInputLength(0),
            ),
            forall|i: int| #![auto]
                first_invalid(inputs@, i) ==> r == Err::<U256, PoseidonError>(
                    PoseidonError::FieldElementTooLarge(inputs@[i]),
                ),
            inputs@.len() > 0 && (forall|i: int| #![auto]
                0 <= i < inputs@.len() ==> is_field_element(inputs@[i].value())) ==> (r matches Ok(
                h) && h.value() == poseidon_chain(values(inputs@)) && is_field_element(h.value())),
    {
        if inputs.len() == 0 {
            return Err(PoseidonError::InvalidInputLength(0));
        }
        let mut k: usize = 0;
        while k < inputs.len()
            invariant
                self.wf(),
                k <= inputs@.len(),
                forall|j: int| 0 <= j < k ==> is_field_element(#[trigger] inputs@[j].value()),
            decreases inputs@.len() - k,
        {
            match self.validate_field_element(inputs[k]) {
                Err(e) => {
                    assert(first_invalid(inputs@, k as int));
                    return Err(e);
                },
                Ok(_) => {},
            }
            k = k + 1;
        }
        let ghost vals = values(inputs@);
        let mut result = inputs[0];
        let mut i: usize = 1;
        proof {
            assert(vals.take(1) =~= seq![vals[0]]);
        }
        while i < inputs.len()
            invariant
                self.wf(),
                1 <= i <= inputs@.len(),
                vals == values(inputs@),
                forall|j: int| 0 <= j < inputs@.len() ==> is_field_element(#[trigger] inputs@[j].value()),
                result.value() == poseidon_chain(vals.take(i as int)),
                is_field_element(result.value()),
            decreases inputs@.len() - i,
        {
            let next = inputs[i];
            result = match self.hash_pair(result, next) {
                Ok(h) => h,
                Err(e) => return Err(e),
            };
            proof {
                assert(vals.take(i + 1).drop_last() =~= vals.take(i as int));
            }
            i = i + 1;
        }
        proof {
            assert(vals.take(i as int) =~= vals);
        }
        Ok(result)
    }
}

} // verus!
