//! 256-bit unsigned integers, the field modulus, and the arithmetic that the
//! hasher uses.
//!
//! A `U256` holds four little-endian 64-bit limbs; its model is the natural
//! number `value()`. Modular addition and multiplication, exponentiation,
//! exclusive or, comparison and the big-endian byte form are computed by
//! `alloy_primitives::U256` (the `ruint` integer type).
use vstd::prelude::*;
use vstd::arithmetic::power::pow;

verus! {

/// `2^64`, the weight of one limb.
pub open spec fn limb_base() -> nat {
    0x1_0000_0000_0000_0000nat
}

/// `2^256`: every `U256` value lies below it.
pub open spec fn word_bound() -> nat {
    limb_base() * limb_base() * limb_base() * limb_base()
}

/// The prime order of the BN254 scalar field.
pub open spec fn field_modulus() -> nat {
    21888242871839275222246405745257275088548364400416034343698204186575808495617nat
}

/// Big-endian value of a byte sequence.
pub open spec fn be_value(s: Seq<u8>) -> nat
    decreases s.len(),
{
    if s.len() == 0 {
        0
    } else {
        be_value(s.drop_last()) * 256 + s.last() as nat
    }
}

/// Byte round trip: two byte strings of one length with the same big-endian
/// value are equal, so reading a word back from the bytes that a value was
/// written to gives those bytes and that value.
pub proof fn lemma_be_value_injective(a: Seq<u8>, b: Seq<u8>)
    requires
        a.len() == b.len(),
        be_value(a) == be_value(b),
    ensures
        a == b,
    decreases a.len(),
{
    if a.len() > 0 {
        let qa = be_value(a.drop_last()) as int;
        let qb = be_value(b.drop_last()) as int;
        let (la, lb) = (a.last() as int, b.last() as int);
        assert(qa == qb && la == lb) by (nonlinear_arith)
            requires
                qa * 256 + la == qb * 256 + lb,
                0 <= la < 256,
                0 <= lb < 256,
                qa >= 0,
                qb >= 0,
        ;
        lemma_be_value_injective(a.drop_last(), b.drop_last());
        assert(a =~= a.drop_last().push(a.last()));
        assert(b =~= b.drop_last().push(b.last()));
    } else {
        assert(a =~= b);
    }
}

/// Bitwise exclusive or of two natural numbers.
pub open spec fn xor_nat(a: nat, b: nat) -> nat
    decreases a + b,
{
    if a == 0 && b == 0 {
        0
    } else {
        (if a % 2 != b % 2 { 1nat } else { 0nat }) + 2 * xor_nat(a / 2, b / 2)
    }
}

/// An unsigned 256-bit integer as four 64-bit limbs, least significant first.
#[derive(Clone, Copy, Debug, PartialEq, Eq)]
pub struct U256 {
    pub limbs: [u64; 4],
}

impl U256 {
    /// The number that the limbs stand for.
    pub open spec fn value(self) -> nat {
        self.limbs@[0] as nat + limb_base() * (self.limbs@[1] as nat + limb_base() * (
        self.limbs@[2] as nat + limb_base() * (self.limbs@[3] as nat)))
    }

    pub fn zero() -> (r: U256)
        ensures
            r.value() == 0,
    {
        U256 { limbs: [0, 0, 0, 0] }
    }

    pub fn from_u64(n: u64) -> (r: U256)
        ensures
            r.value() == n,
    {
        U256 { limbs: [n, 0, 0, 0] }
    }

    /// The field modulus `p`.
    pub fn modulus() -> (r: U256)
        ensures
            r.value() == field_modulus(),
    {
        U256 { limbs: [0x43e1f593f0000001, 0x2833e84879b97091, 0xb85045b68181585d, 0x30644e72e131a029] }
    }

    /// Whether `self` is below `other`.
    pub fn lt(&self, other: &U256) -> (r: bool)
        ensures
            r == (self.value() < other.value()),
    {
        self.less_than(other)
    }

    /// The value as a 32-byte big-endian word.
    pub fn to_be_word(&self) -> (r: Vec<u8>)
        ensures
            r@.len() == 32,
            be_value(r@) == self.value(),
    {
        self.be_bytes()
    }

    /// Relies on `ruint::Uint::add_mod`: `(self + rhs) mod m`, computed without
    /// overflow, for a nonzero modulus.
    #[verifier::external_body]
    pub(crate) fn add_mod(self, rhs: U256, m: U256) -> (r: U256)
        requires
            m.value() > 0,
        ensures
            r.value() == (self.value() + rhs.value()) % m.value(),
    {
        let a = alloy_primitives::U256::from_limbs(self.limbs);
        let b = alloy_primitives::U256::from_limbs(rhs.limbs);
        U256 { limbs: a.add_mod(b, alloy_primitives::U256::from_limbs(m.limbs)).into_limbs() }
    }

    /// Relies on `ruint::Uint::mul_mod`: `(self * rhs) mod m`, computed on the
    /// double-width product, for a nonzero modulus.
    #[verifier::external_body]
    pub(crate) fn mul_mod(self, rhs: U256, m: U256) -> (r: U256)
        requires
            m.value() > 0,
        ensures
            r.value() == (self.value() * rhs.value()) % m.value(),
    {
        let a = alloy_primitives::U256::from_limbs(self.limbs);
        let b = alloy_primitives::U256::from_limbs(rhs.limbs);
        U256 { limbs: a.mul_mod(b, alloy_primitives::U256::from_limbs(m.limbs)).into_limbs() }
    }

    /// Relies on `ruint::Uint::pow`: `self ^ exp`, wrapping modulo `2^256`.
    #[verifier::external_body]
    pub(crate) fn pow(self, exp: U256) -> (r: U256)
        ensures
            r.value() == pow(self.value() as int, exp.value()) % (word_bound() as int),
    {
        let a = alloy_primitives::U256::from_limbs(self.limbs);
        U256 { limbs: a.pow(alloy_primitives::U256::from_limbs(exp.limbs)).into_limbs() }
    }

    /// Relies on `ruint`'s `BitXor`: the bitwise exclusive or.
    #[verifier::external_body]
    pub(crate) fn bitxor(self, rhs: U256) -> (r: U256)
        ensures
            r.value() == xor_nat(self.value(), rhs.value()),
    {
        let a = alloy_primitives::U256::from_limbs(self.limbs);
        U256 { limbs: (a ^ alloy_primitives::U256::from_limbs(rhs.limbs)).into_limbs() }
    }

    /// Relies on `ruint`'s `PartialOrd::lt`: numeric comparison.
    #[verifier::external_body]
    fn less_than(&self, other: &U256) -> (r: bool)
        ensures
            r == (self.value() < other.value()),
    {
        alloy_primitives::U256::from_limbs(self.limbs) < alloy_primitives::U256::from_limbs(other.limbs)
    }

    /// Relies on `ruint::Uint::to_be_bytes_vec`: the 32 big-endian bytes.
    #[verifier::external_body]
    fn be_bytes(&self) -> (r: Vec<u8>)
        ensures
            r@.len() == 32,
            be_value(r@) == self.value(),
    {
        alloy_primitives::U256::from_limbs(self.limbs).to_be_bytes_vec()
    }

    /// Relies on `ruint::Uint::from_be_slice`: a big-endian slice of at most
    /// 32 bytes read as a number (it cannot overflow at that length).
    #[verifier::external_body]
    pub(crate) fn from_be_slice(bytes: &[u8]) -> (r: U256)
        requires
            bytes@.len() == 32,
        ensures
            r.value() == be_value(bytes@),
    {
        U256 { limbs: alloy_primitives::U256::from_be_slice(bytes).into_limbs() }
    }
}

} // verus!
